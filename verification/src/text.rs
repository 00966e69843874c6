use vstd::prelude::*;
use vstd::string::StringExecFns;

verus! {

/// The character of a decimal digit.
pub open spec fn digit(d: nat) -> char {
    if d == 0 {
        '0'
    } else if d == 1 {
        '1'
    } else if d == 2 {
        '2'
    } else if d == 3 {
        '3'
    } else if d == 4 {
        '4'
    } else if d == 5 {
        '5'
    } else if d == 6 {
        '6'
    } else if d == 7 {
        '7'
    } else if d == 8 {
        '8'
    } else {
        '9'
    }
}

/// A number in decimal digits, without leading zeros.
pub open spec fn decimal(n: nat) -> Seq<char>
    decreases n,
{
    if n < 10 {
        seq![digit(n)]
    } else {
        decimal(n / 10).push(digit(n % 10))
    }
}

/// A number has at least one digit, and one digit where it is under ten.
pub proof fn lemma_decimal_len(n: nat)
    ensures
        decimal(n).len() >= 1,
        n < 10 ==> decimal(n).len() == 1,
        n >= 10 ==> decimal(n).len() >= 2,
    decreases n,
{
    if n >= 10 {
        lemma_decimal_len(n / 10);
    }
}

/// A text with zeros put before it until it is `width` characters long.
pub open spec fn zero_padded(text: Seq<char>, width: nat) -> Seq<char> {
    if text.len() >= width {
        text
    } else {
        Seq::new((width - text.len()) as nat, |i: int| '0') + text
    }
}

/// The texts of a list put together, with `sep` between each two.
pub open spec fn joined(sep: Seq<char>, items: Seq<Seq<char>>) -> Seq<char>
    decreases items.len(),
{
    if items.len() == 0 {
        Seq::empty()
    } else if items.len() == 1 {
        items[0]
    } else {
        joined(sep, items.drop_last()) + sep + items.last()
    }
}

/// The views of a list of strings.
pub open spec fn views(items: Seq<String>) -> Seq<Seq<char>> {
    Seq::new(items.len(), |i: int| items[i]@)
}

fn digit_str(d: u8) -> (text: &'static str)
    requires
        d < 10,
    ensures
        text@ == seq![digit(d as nat)],
{
    proof {
        reveal_strlit("0");
        reveal_strlit("1");
        reveal_strlit("2");
        reveal_strlit("3");
        reveal_strlit("4");
        reveal_strlit("5");
        reveal_strlit("6");
        reveal_strlit("7");
        reveal_strlit("8");
        reveal_strlit("9");
    }
    let text = if d == 0 {
        "0"
    } else if d == 1 {
        "1"
    } else if d == 2 {
        "2"
    } else if d == 3 {
        "3"
    } else if d == 4 {
        "4"
    } else if d == 5 {
        "5"
    } else if d == 6 {
        "6"
    } else if d == 7 {
        "7"
    } else if d == 8 {
        "8"
    } else {
        "9"
    };
    assert(text@ =~= seq![digit(d as nat)]);
    text
}

/// Writes a number in decimal digits.
pub fn decimal_string(n: u128) -> (text: String)
    ensures
        text@ == decimal(n as nat),
{
    let mut digits: Vec<u8> = Vec::new();
    let mut rest = n;
    while rest >= 10
        invariant
            forall|i: int| 0 <= i < digits@.len() ==> (#[trigger] digits@[i]) < 10,
            decimal(n as nat) == decimal(rest as nat) + Seq::new(
                digits@.len(),
                |i: int| digit(digits@[digits@.len() - 1 - i] as nat),
            ),
        decreases rest,
    {
        let ghost before = digits@;
        let ghost rest_before = rest;
        digits.push((rest % 10) as u8);
        rest = rest / 10;
        proof {
            let tail_before = Seq::new(
                before.len(),
                |i: int| digit(before[before.len() - 1 - i] as nat),
            );
            let tail = Seq::new(
                digits@.len(),
                |i: int| digit(digits@[digits@.len() - 1 - i] as nat),
            );
            assert(tail =~= seq![digit((rest_before % 10) as nat)] + tail_before);
            assert(decimal(rest_before as nat) == decimal(rest as nat).push(
                digit((rest_before % 10) as nat),
            ));
            assert(decimal(rest as nat).push(digit((rest_before % 10) as nat)) + tail_before
                =~= decimal(rest as nat) + tail);
        }
    }
    let mut text = String::from_str(digit_str(rest as u8));
    let ghost all = digits@;
    proof {
        assert(decimal(rest as nat) == seq![digit(rest as nat)]);
    }
    while digits.len() > 0
        invariant
            digits@.len() <= all.len(),
            digits@ == all.subrange(0, digits@.len() as int),
            forall|i: int| 0 <= i < all.len() ==> (#[trigger] all[i]) < 10,
            text@ == decimal(rest as nat) + Seq::new(
                (all.len() - digits@.len()) as nat,
                |i: int| digit(all[all.len() - 1 - i] as nat),
            ),
        decreases digits@.len(),
    {
        let ghost before = text@;
        let ghost k = all.len() - digits@.len();
        let d = digits.pop();
        match d {
            Some(d) => {
                assert(d == all[all.len() - 1 - k]);
                text.append(digit_str(d));
                proof {
                    assert(text@ =~= decimal(rest as nat) + Seq::new(
                        (k + 1) as nat,
                        |i: int| digit(all[all.len() - 1 - i] as nat),
                    ));
                }
            },
            None => {},
        }
    }
    proof {
        assert(text@ =~= decimal(n as nat));
    }
    text
}

/// Writes a count in decimal digits.
pub fn count_string(n: usize) -> (text: String)
    ensures
        text@ == decimal(n as nat),
{
    decimal_string(n as u128)
}

/// Writes a number under a thousand in three digits.
pub fn three_digits(n: u128) -> (text: String)
    requires
        n < 1000,
    ensures
        text@ == zero_padded(decimal(n as nat), 3),
{
    proof {
        lemma_decimal_len(n as nat);
        lemma_decimal_len((n / 10) as nat);
    }
    let number = decimal_string(n);
    let mut text = if n < 10 {
        String::from_str("00")
    } else if n < 100 {
        String::from_str("0")
    } else {
        String::new()
    };
    proof {
        reveal_strlit("00");
        reveal_strlit("0");
        if n < 10 {
            assert(text@ =~= Seq::new(2, |i: int| '0'));
        } else if n < 100 {
            assert(decimal(n as nat).len() == 2);
            assert(text@ =~= Seq::new(1, |i: int| '0'));
        } else {
            assert(decimal((n / 10) as nat).len() >= 2);
            assert(decimal(n as nat).len() >= 3);
        }
    }
    text.append(number.as_str());
    text
}

/// Puts the strings of a list together, with `sep` between each two.
pub fn join(sep: &str, items: &Vec<String>) -> (text: String)
    ensures
        text@ == joined(sep@, views(items@)),
{
    let mut text = String::new();
    let mut i: usize = 0;
    while i < items.len()
        invariant
            i <= items@.len(),
            text@ == joined(sep@, views(items@.take(i as int))),
        decreases items@.len() - i,
    {
        proof {
            let now = views(items@.take(i + 1));
            assert(now.drop_last() =~= views(items@.take(i as int)));
            assert(now.last() == items@[i as int]@);
            if i == 0 {
                assert(joined(sep@, now) == now[0]);
                assert(text@ + items@[0]@ =~= now[0]);
            }
        }
        if i > 0 {
            text.append(sep);
        }
        text.append(items[i].as_str());
        i += 1;
    }
    proof {
        assert(items@.take(i as int) == items@);
    }
    text
}

/// `String`'s `push`: appends one character.
#[verifier::external_body]
pub(crate) fn push_char(text: &mut String, c: char)
    ensures
        final(text)@ == old(text)@.push(c),
{
    text.push(c)
}

/// `str`'s `==`: whether two texts hold the same characters.
#[verifier::external_body]
pub(crate) fn str_equal(a: &str, b: &str) -> (equal: bool)
    ensures
        equal == (a@ == b@),
{
    a == b
}


/// The characters of a text.
pub fn chars_of(text: &str) -> (chars: Vec<char>)
    ensures
        chars@ == text@,
{
    let mut chars: Vec<char> = Vec::new();
    for c in iter: text.chars()
        invariant
            chars@ == iter.seq().take(iter.index() as int),
            iter.seq() == text@,
    {
        chars.push(c);
        proof {
            assert(chars@ =~= iter.seq().take(iter.index() + 1));
        }
    }
    proof {
        assert(chars@ =~= text@);
    }
    chars
}


/// Whether a character is white space: the characters that Unicode gives the
/// property `White_Space`.
pub open spec fn is_whitespace_spec(c: char) -> bool {
    let code = c as u32;
    (0x09 <= code && code <= 0x0d) || code == 0x20 || code == 0x85 || code == 0xa0 || code
        == 0x1680 || (0x2000 <= code && code <= 0x200a) || code == 0x2028 || code == 0x2029
        || code == 0x202f || code == 0x205f || code == 0x3000
}

pub fn is_whitespace(c: char) -> (white: bool)
    ensures
        white == is_whitespace_spec(c),
{
    let code = c as u32;
    (0x09 <= code && code <= 0x0d) || code == 0x20 || code == 0x85 || code == 0xa0 || code
        == 0x1680 || (0x2000 <= code && code <= 0x200a) || code == 0x2028 || code == 0x2029
        || code == 0x202f || code == 0x205f || code == 0x3000
}

/// A text without the white space at its start.
pub open spec fn trimmed_start(text: Seq<char>) -> Seq<char>
    decreases text.len(),
{
    if text.len() > 0 && is_whitespace_spec(text[0]) {
        trimmed_start(text.drop_first())
    } else {
        text
    }
}

/// A text without the white space at its end.
pub open spec fn trimmed_end(text: Seq<char>) -> Seq<char>
    decreases text.len(),
{
    if text.len() > 0 && is_whitespace_spec(text.last()) {
        trimmed_end(text.drop_last())
    } else {
        text
    }
}

/// A text without the white space at its start and at its end.
pub open spec fn trimmed(text: Seq<char>) -> Seq<char> {
    trimmed_end(trimmed_start(text))
}

/// What separates the parts of a line.
#[derive(Clone, Copy, PartialEq, Eq, Debug, Structural)]
pub enum Delims {
    /// One given character.
    One(char),
    /// Any white space.
    Whitespace,
    /// A semicolon, a tab, a comma or a blank.
    Tabular,
}

impl Delims {
    pub open spec fn holds(self, c: char) -> bool {
        match self {
            Delims::One(delim) => c == delim,
            Delims::Whitespace => is_whitespace_spec(c),
            Delims::Tabular => c == ';' || c == '\t' || c == ',' || c == ' ',
        }
    }

    /// Whether a character separates.
    pub fn has(&self, c: char) -> (holds: bool)
        ensures
            holds == self.holds(c),
    {
        match self {
            Delims::One(delim) => c == *delim,
            Delims::Whitespace => is_whitespace(c),
            Delims::Tabular => c == ';' || c == '\t' || c == ',' || c == ' ',
        }
    }
}

/// The parts of a text between its separators: one more than there are
/// separators, so that a text without any is its only part, and two
/// separators in a row have an empty part between them.
pub open spec fn pieces(text: Seq<char>, delims: Delims) -> Seq<Seq<char>>
    decreases text.len(),
{
    if text.len() == 0 {
        seq![Seq::<char>::empty()]
    } else {
        let before = pieces(text.drop_last(), delims);
        if delims.holds(text.last()) {
            before.push(Seq::<char>::empty())
        } else {
            before.drop_last().push(before.last().push(text.last()))
        }
    }
}

/// A text has at least one part.
pub proof fn lemma_pieces_len(text: Seq<char>, delims: Delims)
    ensures
        pieces(text, delims).len() >= 1,
    decreases text.len(),
{
    if text.len() > 0 {
        lemma_pieces_len(text.drop_last(), delims);
    }
}

/// The string of the characters `chars[from..to]`.
pub fn string_of(chars: &Vec<char>, from: usize, to: usize) -> (text: String)
    requires
        from <= to <= chars@.len(),
    ensures
        text@ == chars@.subrange(from as int, to as int),
{
    let mut text = String::new();
    let mut i = from;
    while i < to
        invariant
            from <= i <= to <= chars@.len(),
            text@ == chars@.subrange(from as int, i as int),
        decreases to - i,
    {
        push_char(&mut text, chars[i]);
        proof {
            assert(text@ =~= chars@.subrange(from as int, i + 1));
        }
        i += 1;
    }
    text
}

/// Takes the white space off the start and the end of a text.
pub fn trim(text: &str) -> (result: String)
    ensures
        result@ == trimmed(text@),
{
    let chars = chars_of(text);
    let mut from: usize = 0;
    proof {
        assert(chars@.subrange(0, chars@.len() as int) =~= chars@);
    }
    while from < chars.len() && is_whitespace(chars[from])
        invariant
            from <= chars@.len(),
            trimmed_start(chars@) == trimmed_start(chars@.subrange(from as int, chars@.len() as int)),
        decreases chars@.len() - from,
    {
        proof {
            let rest = chars@.subrange(from as int, chars@.len() as int);
            assert(rest.drop_first() =~= chars@.subrange(from + 1, chars@.len() as int));
        }
        from += 1;
    }
    proof {
        let rest = chars@.subrange(from as int, chars@.len() as int);
        assert(chars@.subrange(0, chars@.len() as int) =~= chars@);
        assert(trimmed_start(chars@) == rest);
    }
    let mut to: usize = chars.len();
    while to > from && is_whitespace(chars[to - 1])
        invariant
            from <= to <= chars@.len(),
            trimmed(chars@) == trimmed_end(chars@.subrange(from as int, to as int)),
        decreases to,
    {
        proof {
            let rest = chars@.subrange(from as int, to as int);
            assert(rest.drop_last() =~= chars@.subrange(from as int, to - 1));
        }
        to -= 1;
    }
    string_of(&chars, from, to)
}

/// Cuts a text into its parts.
pub fn split(text: &str, delims: Delims) -> (parts: Vec<String>)
    ensures
        views(parts@) == pieces(text@, delims),
{
    let chars = chars_of(text);
    let mut parts: Vec<String> = Vec::new();
    let mut from: usize = 0;
    let mut i: usize = 0;
    proof {
        assert(chars@.take(0) =~= Seq::<char>::empty());
        assert(chars@.subrange(0, 0) =~= Seq::<char>::empty());
        assert(views(parts@).push(Seq::<char>::empty()) =~= seq![Seq::<char>::empty()]);
    }
    while i < chars.len()
        invariant
            from <= i <= chars@.len(),
            chars@ == text@,
            pieces(chars@.take(i as int), delims) == views(parts@).push(
                chars@.subrange(from as int, i as int),
            ),
        decreases chars@.len() - i,
    {
        proof {
            let now = chars@.take(i + 1);
            assert(now.drop_last() =~= chars@.take(i as int));
            assert(now.last() == chars@[i as int]);
        }
        let ghost before = views(parts@);
        if delims.has(chars[i]) {
            let part = string_of(&chars, from, i);
            parts.push(part);
            from = i + 1;
            proof {
                assert(views(parts@) =~= before.push(part@));
                assert(chars@.subrange(from as int, i + 1) =~= Seq::<char>::empty());
            }
        } else {
            proof {
                let whole = before.push(chars@.subrange(from as int, i as int));
                assert(whole.drop_last() =~= before);
                assert(chars@.subrange(from as int, i as int).push(chars@[i as int])
                    =~= chars@.subrange(from as int, i + 1));
            }
        }
        i += 1;
    }
    let ghost before = views(parts@);
    let part = string_of(&chars, from, i);
    parts.push(part);
    proof {
        assert(chars@.take(i as int) =~= chars@);
        assert(views(parts@) =~= before.push(part@));
    }
    parts
}

/// The first place at which two lists of texts differ, where both have it.
pub open spec fn first_difference(a: Seq<Seq<char>>, b: Seq<Seq<char>>) -> Option<int> {
    if exists|i: int| is_first_difference(a, b, i) {
        Some(choose|i: int| is_first_difference(a, b, i))
    } else {
        None
    }
}

pub open spec fn is_first_difference(a: Seq<Seq<char>>, b: Seq<Seq<char>>, i: int) -> bool {
    &&& 0 <= i < a.len()
    &&& i < b.len()
    &&& a[i] != b[i]
    &&& forall|j: int| 0 <= j < i ==> #[trigger] a[j] == b[j]
}

/// Finds the first place at which two lists of strings differ.
pub fn find_first_difference(a: &Vec<String>, b: &Vec<String>) -> (found: Option<usize>)
    ensures
        found is Some == first_difference(views(a@), views(b@)) is Some,
        found is Some ==> found->0 == first_difference(views(a@), views(b@))->0
            && is_first_difference(views(a@), views(b@), found->0 as int),
{
    let mut i: usize = 0;
    while i < a.len() && i < b.len()
        invariant
            i <= a@.len(),
            i <= b@.len(),
            forall|j: int| 0 <= j < i ==> #[trigger] views(a@)[j] == views(b@)[j],
        decreases a@.len() - i,
    {
        if !str_equal(a[i].as_str(), b[i].as_str()) {
            proof {
                assert(is_first_difference(views(a@), views(b@), i as int));
                let chosen = choose|k: int| is_first_difference(views(a@), views(b@), k);
                if chosen < i {
                    assert(views(a@)[chosen] == views(b@)[chosen]);
                }
                if i < chosen {
                    assert(views(a@)[i as int] == views(b@)[i as int]);
                }
            }
            return Some(i);
        }
        i += 1;
    }
    proof {
        assert forall|k: int| !is_first_difference(views(a@), views(b@), k) by {
            if 0 <= k < i {
                assert(views(a@)[k] == views(b@)[k]);
            }
        }
    }
    None
}

} // verus!
