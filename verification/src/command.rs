//! The command classifier: from one trimmed line of text to one typed
//! action.

use crate::inventory::InventoryApp;
use crate::pattern::{find_fields, pattern_groups, selected};
use crate::report::fits_i32;
use vstd::prelude::*;
use vstd::string::StrSliceExecFns;

verus! {

/// `SKU*N`: word characters, a star, a whole number with or without `-`.
pub const STOCKSELL_REGEX: &'static str = r"^(\w+)\*(-?\d+)$";

/// `Q+[SKU](Name)D`: a SKU of word characters, a name of word characters and
/// space characters, one digit.
pub const NEWPRODUCT_REGEX: &'static str = r"^Q\+\[([\w]+)\]\(([\w ]+)\)(\d)$";

/// `inspect:SKU`.
pub const INSPECT_REGEX: &'static str = r"^inspect:(\w+)$";

/// `retire:SKU` or `restore:SKU`.
pub const RETIRE_REGEX: &'static str = r"^(retire|restore):(\w+)$";

/// The commands of the menu. `Invalid` stands for a text that names none.
#[derive(Debug, Clone, Copy, PartialEq, Eq, Structural)]
pub enum MenuItems {
    Report,
    Email,
    Help,
    Invalid,
    Quit,
}

/// What a line of input asks for.
#[derive(Debug, PartialEq)]
pub enum Action {
    /// A positive quantity restocks, a negative one sells, zero gives one
    /// unit away.
    StockOrSell { sku: String, quantity: i32 },
    CreateProduct { sku: String, name: String, initial_quantity: i32 },
    Inspect { sku: String },
    SetRetired { sku: String, retired: bool },
    MenuCommand { kind: MenuItems },
    /// The line has the form of a stock-or-sell line, or of a create-product
    /// line where `create` holds, and names the SKU `sku`, but the number it
    /// writes is no value of `i32`.
    UnreadQuantity { sku: String, create: bool },
    /// The line fits no grammar.
    Rejected { raw_text: String },
}

/// The mathematical value of an [`Action`].
pub enum ActionView {
    StockOrSell { sku: Seq<char>, quantity: int },
    CreateProduct { sku: Seq<char>, name: Seq<char>, initial_quantity: int },
    Inspect { sku: Seq<char> },
    SetRetired { sku: Seq<char>, retired: bool },
    MenuCommand { kind: MenuItems },
    UnreadQuantity { sku: Seq<char>, create: bool },
    Rejected { raw_text: Seq<char> },
}

impl View for Action {
    type V = ActionView;

    open spec fn view(&self) -> ActionView {
        match self {
            Action::StockOrSell { sku, quantity } => ActionView::StockOrSell {
                sku: sku@,
                quantity: *quantity as int,
            },
            Action::CreateProduct { sku, name, initial_quantity } => ActionView::CreateProduct {
                sku: sku@,
                name: name@,
                initial_quantity: *initial_quantity as int,
            },
            Action::Inspect { sku } => ActionView::Inspect { sku: sku@ },
            Action::SetRetired { sku, retired } => ActionView::SetRetired {
                sku: sku@,
                retired: *retired,
            },
            Action::MenuCommand { kind } => ActionView::MenuCommand { kind: *kind },
            Action::UnreadQuantity { sku, create } => ActionView::UnreadQuantity {
                sku: sku@,
                create: *create,
            },
            Action::Rejected { raw_text } => ActionView::Rejected { raw_text: raw_text@ },
        }
    }
}

/// The lower-case form of an upper-case letter of ASCII; any other character
/// as it is.
pub open spec fn lowered(c: char) -> char {
    if 'A' <= c <= 'Z' {
        ((c as u8 + 32) as u8) as char
    } else {
        c
    }
}

/// `text` with its upper-case letters of ASCII lowered.
pub open spec fn lowercase(text: Seq<char>) -> Seq<char> {
    text.map_values(|c: char| lowered(c))
}

/// The menu command that `text` names, whatever the case of its letters.
pub open spec fn menu_of(text: Seq<char>) -> MenuItems {
    if lowercase(text) == "report"@ {
        MenuItems::Report
    } else if lowercase(text) == "email"@ {
        MenuItems::Email
    } else if lowercase(text) == "help"@ {
        MenuItems::Help
    } else if lowercase(text) == "quit"@ {
        MenuItems::Quit
    } else {
        MenuItems::Invalid
    }
}

/// The lower-case form of `c`.
pub fn lower_char(c: char) -> (r: char)
    ensures
        r == lowered(c),
{
    if 'A' <= c && c <= 'Z' {
        (c as u8 + 32) as char
    } else {
        c
    }
}

/// Whether `text` is `word` once its upper-case letters are lowered.
pub fn is_word(text: &str, word: &str) -> (r: bool)
    ensures
        r == (lowercase(text@) == word@),
{
    let n = word.unicode_len();
    if text.unicode_len() != n {
        return false;
    }
    let mut i: usize = 0;
    while i < n
        invariant
            i <= n,
            n == word@.len(),
            n == text@.len(),
            forall|j: int| 0 <= j < i ==> lowered(#[trigger] text@[j]) == word@[j],
        decreases n - i,
    {
        if lower_char(text.get_char(i)) != word.get_char(i) {
            assert(lowercase(text@)[i as int] != word@[i as int]);
            return false;
        }
        i += 1;
    }
    assert(lowercase(text@) =~= word@);
    true
}

impl vstd::std_specs::convert::FromSpecImpl<String> for MenuItems {
    open spec fn obeys_from_spec() -> bool {
        true
    }

    open spec fn from_spec(command: String) -> MenuItems {
        menu_of(command@)
    }
}

impl From<String> for MenuItems {
    /// The menu command that `command` names, whatever the case of its
    /// letters; `Invalid` where it names none.
    fn from(command: String) -> (r: MenuItems) {
        let text = command.as_str();
        if is_word(text, "report") {
            MenuItems::Report
        } else if is_word(text, "email") {
            MenuItems::Email
        } else if is_word(text, "help") {
            MenuItems::Help
        } else if is_word(text, "quit") {
            MenuItems::Quit
        } else {
            MenuItems::Invalid
        }
    }
}

/// A decimal digit of ASCII.
pub open spec fn is_digit(c: char) -> bool {
    '0' <= c <= '9'
}

/// Every character of `s` is a decimal digit of ASCII.
pub open spec fn all_digits(s: Seq<char>) -> bool {
    forall|i: int| 0 <= i < s.len() ==> is_digit(#[trigger] s[i])
}

/// The number that the digits `s` write in base ten.
pub open spec fn decimal_value(s: Seq<char>) -> int
    decreases s.len(),
{
    if s.len() == 0 {
        0
    } else {
        10 * decimal_value(s.drop_last()) + (s.last() as int - '0' as int)
    }
}

/// The whole number that `s` writes: one or more digits of ASCII, with or
/// without a `-` before them.
pub open spec fn written_number(s: Seq<char>) -> Option<int> {
    if s.len() > 0 && s[0] == '-' {
        let digits = s.subrange(1, s.len() as int);
        if digits.len() > 0 && all_digits(digits) {
            Some(-decimal_value(digits))
        } else {
            None
        }
    } else if s.len() > 0 && all_digits(s) {
        Some(decimal_value(s))
    } else {
        None
    }
}

/// The quantity that `s` writes, where it writes a whole number that is a
/// value of `i32`.
pub open spec fn quantity_of(s: Seq<char>) -> Option<i32> {
    match written_number(s) {
        Some(value) => if fits_i32(value) {
            Some(value as i32)
        } else {
            None
        },
        None => None,
    }
}

/// Digits written after a number do not make it smaller.
pub proof fn lemma_decimal_value_grows(s: Seq<char>, k: int)
    requires
        all_digits(s),
        0 <= k <= s.len(),
    ensures
        0 <= decimal_value(s.take(k)) <= decimal_value(s),
    decreases s.len() - k,
{
    if k == s.len() {
        assert(s.take(k) =~= s);
        lemma_decimal_value_nonnegative(s);
    } else {
        lemma_decimal_value_grows(s, k + 1);
        let longer = s.take(k + 1);
        assert(longer.drop_last() =~= s.take(k));
        assert(is_digit(s[k]));
        assert(longer.last() == s[k]);
        assert(all_digits(s.take(k))) by {
            assert forall|i: int| 0 <= i < s.take(k).len() implies is_digit(
                #[trigger] s.take(k)[i],
            ) by {
                assert(is_digit(s[i]));
            }
        }
        lemma_decimal_value_nonnegative(s.take(k));
    }
}

/// Digits write no negative number.
pub proof fn lemma_decimal_value_nonnegative(s: Seq<char>)
    requires
        all_digits(s),
    ensures
        0 <= decimal_value(s),
    decreases s.len(),
{
    if s.len() > 0 {
        assert(is_digit(s[s.len() - 1]));
        assert(all_digits(s.drop_last())) by {
            assert forall|i: int| 0 <= i < s.drop_last().len() implies is_digit(
                #[trigger] s.drop_last()[i],
            ) by {
                assert(is_digit(s[i]));
            }
        }
        lemma_decimal_value_nonnegative(s.drop_last());
    }
}

/// Reads a quantity: one or more digits of ASCII, with or without a `-`
/// before them, that write a value of `i32`.
pub fn parse_quantity(text: &str) -> (r: Option<i32>)
    ensures
        r == quantity_of(text@),
{
    let n = text.unicode_len();
    if n == 0 {
        return None;
    }
    let negative = text.get_char(0) == '-';
    let start: usize = if negative {
        1
    } else {
        0
    };
    if start >= n {
        return None;
    }
    let ghost digits = text@.subrange(start as int, n as int);
    let mut value: i64 = 0;
    let mut i: usize = start;
    while i < n
        invariant
            start <= i <= n,
            n == text@.len(),
            negative == (text@[0] == '-'),
            start == if negative { 1int } else { 0int },
            digits == text@.subrange(start as int, n as int),
            all_digits(digits.take(i - start)),
            value == decimal_value(digits.take(i - start)),
            0 <= value <= 0x8000_0000,
        decreases n - i,
    {
        let c = text.get_char(i);
        let ghost read = digits.take(i - start);
        let ghost longer = digits.take(i - start + 1);
        assert(longer.drop_last() =~= read);
        assert(longer.last() == c);
        if !('0' <= c && c <= '9') {
            assert(!is_digit(digits[i - start]));
            assert(!is_digit(text@[i as int]));
            return None;
        }
        let next: i64 = 10 * value + (c as u8 - 48) as i64;
        assert(all_digits(longer)) by {
            assert forall|j: int| 0 <= j < longer.len() implies is_digit(#[trigger] longer[j]) by {
                if j < i - start {
                    assert(is_digit(read[j]));
                }
            }
        }
        if next > 0x8000_0000 {
            proof {
                if all_digits(digits) {
                    lemma_decimal_value_grows(digits, i - start + 1);
                }
                if !negative {
                    assert(digits =~= text@);
                }
            }
            return None;
        }
        value = next;
        i += 1;
    }
    assert(digits.take(n - start) =~= digits);
    proof {
        if !negative {
            assert(digits =~= text@);
        }
    }
    if negative {
        Some((-value) as i32)
    } else if value > 0x7fff_ffff {
        None
    } else {
        Some(value as i32)
    }
}

/// The action of a line of the form `SKU*N`, from its two fields: the SKU
/// and the quantity as written. Where the quantity is no value of `i32` the
/// action keeps the SKU and says that the quantity could not be read.
pub open spec fn stock_or_sell_action(raw: Seq<char>, fields: Seq<Seq<char>>) -> ActionView {
    if fields.len() != 2 {
        ActionView::Rejected { raw_text: raw }
    } else if quantity_of(fields[1]) is Some {
        ActionView::StockOrSell { sku: fields[0], quantity: quantity_of(fields[1])->0 as int }
    } else {
        ActionView::UnreadQuantity { sku: fields[0], create: false }
    }
}

/// The action of a line of the form `Q+[SKU](Name)D`, from its three fields.
/// Where the digit is no digit of ASCII the action keeps the SKU and says
/// that the quantity could not be read.
pub open spec fn new_product_action(raw: Seq<char>, fields: Seq<Seq<char>>) -> ActionView {
    if fields.len() != 3 {
        ActionView::Rejected { raw_text: raw }
    } else if quantity_of(fields[2]) is Some {
        ActionView::CreateProduct {
            sku: fields[0],
            name: fields[1],
            initial_quantity: quantity_of(fields[2])->0 as int,
        }
    } else {
        ActionView::UnreadQuantity { sku: fields[0], create: true }
    }
}

/// The action of a line of the form `retire:SKU` or `restore:SKU`, from the
/// SKU and the word before the colon.
pub open spec fn retire_action(raw: Seq<char>, fields: Seq<Seq<char>>) -> ActionView {
    if fields.len() == 2 && fields[1] == "retire"@ {
        ActionView::SetRetired { sku: fields[0], retired: true }
    } else if fields.len() == 2 && fields[1] == "restore"@ {
        ActionView::SetRetired { sku: fields[0], retired: false }
    } else {
        ActionView::Rejected { raw_text: raw }
    }
}

/// The action of a line that fits none of the four patterns: a menu command
/// where it names one.
pub open spec fn menu_action(raw: Seq<char>) -> ActionView {
    if menu_of(raw) == MenuItems::Invalid {
        ActionView::Rejected { raw_text: raw }
    } else {
        ActionView::MenuCommand { kind: menu_of(raw) }
    }
}

/// The fields of a line of the form `SKU*N`: the SKU and the quantity as
/// written.
pub open spec fn stock_or_sell_fields(code: Seq<char>) -> Option<Seq<Seq<char>>> {
    selected(pattern_groups(STOCKSELL_REGEX@, code), seq![1usize, 2usize])
}

/// The fields of a line of the form `Q+[SKU](Name)D`: SKU, name and digit.
pub open spec fn new_product_fields(code: Seq<char>) -> Option<Seq<Seq<char>>> {
    selected(pattern_groups(NEWPRODUCT_REGEX@, code), seq![1usize, 2usize, 3usize])
}

/// The SKU of a line of the form `inspect:SKU`.
pub open spec fn inspect_field(code: Seq<char>) -> Option<Seq<char>> {
    match selected(pattern_groups(INSPECT_REGEX@, code), seq![1usize]) {
        Some(fields) => Some(fields[0]),
        None => None,
    }
}

/// The fields of a line of the form `retire:SKU` or `restore:SKU`: the SKU
/// first, then the word before the colon.
pub open spec fn retire_fields(code: Seq<char>) -> Option<Seq<Seq<char>>> {
    selected(pattern_groups(RETIRE_REGEX@, code), seq![2usize, 1usize])
}

/// The action that the line `text` asks for. The four patterns are tried in
/// a fixed order and the first that fits decides; a line that fits none is a
/// menu command or is rejected.
pub open spec fn classified(text: Seq<char>) -> ActionView {
    if let Some(fields) = stock_or_sell_fields(text) {
        stock_or_sell_action(text, fields)
    } else if let Some(fields) = new_product_fields(text) {
        new_product_action(text, fields)
    } else if let Some(sku) = inspect_field(text) {
        ActionView::Inspect { sku }
    } else if let Some(fields) = retire_fields(text) {
        retire_action(text, fields)
    } else {
        menu_action(text)
    }
}

impl Action {
    /// The action of a stock-or-sell line `raw` with the fields `fields`.
    pub fn stock_or_sell(raw: &str, fields: Vec<String>) -> (r: Action)
        ensures
            r@ == stock_or_sell_action(raw@, fields.deep_view()),
    {
        let mut fields = fields;
        if fields.len() != 2 {
            return Action::Rejected { raw_text: raw.to_owned() };
        }
        assert(fields.deep_view()[1] == fields[1]@ && fields.deep_view()[0] == fields[0]@);
        match parse_quantity(fields[1].as_str()) {
            Some(quantity) => {
                let sku = fields.swap_remove(0);
                Action::StockOrSell { sku, quantity }
            },
            None => {
                let sku = fields.swap_remove(0);
                Action::UnreadQuantity { sku, create: false }
            },
        }
    }

    /// The action of a create-product line `raw` with the fields `fields`.
    pub fn new_product(raw: &str, fields: Vec<String>) -> (r: Action)
        ensures
            r@ == new_product_action(raw@, fields.deep_view()),
    {
        let mut fields = fields;
        if fields.len() != 3 {
            return Action::Rejected { raw_text: raw.to_owned() };
        }
        assert(fields.deep_view()[2] == fields[2]@ && fields.deep_view()[1] == fields[1]@
            && fields.deep_view()[0] == fields[0]@);
        match parse_quantity(fields[2].as_str()) {
            Some(initial_quantity) => {
                let name = fields.swap_remove(1);
                let sku = fields.swap_remove(0);
                Action::CreateProduct { sku, name, initial_quantity }
            },
            None => {
                let sku = fields.swap_remove(0);
                Action::UnreadQuantity { sku, create: true }
            },
        }
    }

    /// The action of a retire-or-restore line `raw` with the fields `fields`.
    pub fn retire(raw: &str, fields: Vec<String>) -> (r: Action)
        ensures
            r@ == retire_action(raw@, fields.deep_view()),
    {
        let mut fields = fields;
        if fields.len() != 2 {
            return Action::Rejected { raw_text: raw.to_owned() };
        }
        assert(fields.deep_view()[1] == fields[1]@ && fields.deep_view()[0] == fields[0]@);
        let retired = fields[1] == "retire".to_owned();
        let restored = fields[1] == "restore".to_owned();
        if retired || restored {
            let sku = fields.swap_remove(0);
            Action::SetRetired { sku, retired }
        } else {
            Action::Rejected { raw_text: raw.to_owned() }
        }
    }

    /// The action of a line `raw` that fits none of the four patterns.
    pub fn menu(raw: &str) -> (r: Action)
        ensures
            r@ == menu_action(raw@),
    {
        let kind = MenuItems::from(raw.to_owned());
        match kind {
            MenuItems::Invalid => Action::Rejected { raw_text: raw.to_owned() },
            _ => Action::MenuCommand { kind },
        }
    }
}

impl InventoryApp {
    /// The SKU and the quantity, as written, of a line of the form `SKU*N`;
    /// `None` for any other line.
    pub fn result_stock_or_sell(&self, code: String) -> (r: Option<Vec<String>>)
        ensures
            r.deep_view() == stock_or_sell_fields(code@),
    {
        find_fields(STOCKSELL_REGEX, code.as_str(), vec![1, 2])
    }

    /// SKU, name and digit of a line of the form `Q+[SKU](Name)D`; `None` for
    /// any other line.
    pub fn result_new_product(&self, code: String) -> (r: Option<Vec<String>>)
        ensures
            r.deep_view() == new_product_fields(code@),
    {
        find_fields(NEWPRODUCT_REGEX, code.as_str(), vec![1, 2, 3])
    }

    /// The SKU of a line of the form `inspect:SKU`; `None` for any other
    /// line.
    pub fn result_inspect(&self, code: String) -> (r: Option<String>)
        ensures
            r.deep_view() == inspect_field(code@),
    {
        match find_fields(INSPECT_REGEX, code.as_str(), vec![1]) {
            Some(fields) => {
                let mut fields = fields;
                assert(fields.deep_view().len() == seq![1usize].len());
                assert(fields.deep_view()[0] == fields[0]@);
                Some(fields.swap_remove(0))
            },
            None => None,
        }
    }

    /// The SKU, then the word before the colon, of a line of the form
    /// `retire:SKU` or `restore:SKU`; `None` for any other line.
    pub fn result_retire(&self, code: String) -> (r: Option<Vec<String>>)
        ensures
            r.deep_view() == retire_fields(code@),
    {
        find_fields(RETIRE_REGEX, code.as_str(), vec![2, 1])
    }

    /// Classifies one trimmed line of input.
    pub fn classify(&self, text: &str) -> (r: Action)
        ensures
            r@ == classified(text@),
    {
        if let Some(fields) = self.result_stock_or_sell(text.to_owned()) {
            Action::stock_or_sell(text, fields)
        } else if let Some(fields) = self.result_new_product(text.to_owned()) {
            Action::new_product(text, fields)
        } else if let Some(sku) = self.result_inspect(text.to_owned()) {
            Action::Inspect { sku }
        } else if let Some(fields) = self.result_retire(text.to_owned()) {
            Action::retire(text, fields)
        } else {
            Action::menu(text)
        }
    }
}

} // verus!
