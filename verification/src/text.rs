//! Small verified helpers for working with strings character by character.

use vstd::prelude::*;
use vstd::string::*;

verus! {

/// Character-by-character equality of two string slices.
pub fn str_eq(a: &str, b: &str) -> (r: bool)
    ensures
        r == (a@ == b@),
{
    let alen = a.unicode_len();
    let blen = b.unicode_len();
    if alen != blen {
        return false;
    }
    let mut i: usize = 0;
    while i < alen
        invariant
            i <= alen,
            alen == a@.len(),
            alen == b@.len(),
            forall|j: int| 0 <= j < i ==> a@[j] == b@[j],
        decreases alen - i,
    {
        if a.get_char(i) != b.get_char(i) {
            return false;
        }
        i = i + 1;
    }
    proof {
        assert(a@ =~= b@);
    }
    true
}

/// The whitespace characters that `trim` strips from the ends of a cell.
pub open spec fn spec_is_space(c: char) -> bool {
    c == ' ' || c == '\t' || c == '\n' || c == '\r'
}

/// Drops leading whitespace.
pub open spec fn spec_trim_start(s: Seq<char>) -> Seq<char>
    decreases s.len(),
{
    if s.len() > 0 && spec_is_space(s[0]) {
        spec_trim_start(s.skip(1))
    } else {
        s
    }
}

/// Drops trailing whitespace.
pub open spec fn spec_trim_end(s: Seq<char>) -> Seq<char>
    decreases s.len(),
{
    if s.len() > 0 && spec_is_space(s[s.len() - 1]) {
        spec_trim_end(s.take(s.len() - 1))
    } else {
        s
    }
}

/// Drops whitespace from both ends.
pub open spec fn spec_trim(s: Seq<char>) -> Seq<char> {
    spec_trim_end(spec_trim_start(s))
}

/// Splits at every comma; the result always has at least one piece, and an
/// empty input yields one empty piece.
pub open spec fn spec_split_commas(s: Seq<char>) -> Seq<Seq<char>>
    decreases s.len(),
{
    if s.len() == 0 {
        seq![s]
    } else if s[0] == ',' {
        seq![Seq::<char>::empty()] + spec_split_commas(s.skip(1))
    } else {
        let rest = spec_split_commas(s.skip(1));
        seq![seq![s[0]] + rest[0]] + rest.skip(1)
    }
}

/// Splitting never yields an empty list of pieces.
pub proof fn lemma_split_len_pos(s: Seq<char>)
    ensures
        spec_split_commas(s).len() >= 1,
    decreases s.len(),
{
    if s.len() > 0 && s[0] != ',' {
        lemma_split_len_pos(s.skip(1));
    }
}

/// A string without commas is a single piece.
pub proof fn lemma_split_no_comma(s: Seq<char>)
    requires
        forall|j: int| 0 <= j < s.len() ==> s[j] != ',',
    ensures
        spec_split_commas(s) =~= seq![s],
    decreases s.len(),
{
    if s.len() > 0 {
        assert(s[0] != ',');
        assert(forall|j: int| 0 <= j < s.skip(1).len() ==> s.skip(1)[j] != ',');
        lemma_split_no_comma(s.skip(1));
        assert(seq![s[0]] + s.skip(1) =~= s);
        assert(spec_split_commas(s) =~= seq![s]);
    }
}

/// Splitting at the first comma separates the head piece from the rest.
pub proof fn lemma_split_first_comma(s: Seq<char>, i: int)
    requires
        0 <= i < s.len(),
        s[i] == ',',
        forall|j: int| 0 <= j < i ==> s[j] != ',',
    ensures
        spec_split_commas(s) =~= seq![s.take(i)] + spec_split_commas(s.skip(i + 1)),
    decreases i,
{
    if i == 0 {
        assert(s.take(0) =~= Seq::<char>::empty());
    } else {
        assert(s[0] != ',');
        let t = s.skip(1);
        assert(t[i - 1] == ',');
        assert(forall|j: int| 0 <= j < i - 1 ==> t[j] != ',');
        lemma_split_first_comma(t, i - 1);
        lemma_split_len_pos(t.skip(i));
        let rest = spec_split_commas(t);
        assert(rest[0] == t.take(i - 1));
        assert(seq![s[0]] + t.take(i - 1) =~= s.take(i));
        assert(t.skip(i) =~= s.skip(i + 1));
        assert(rest.skip(1) =~= spec_split_commas(s.skip(i + 1)));
    }
}

/// Joins pieces with a comma between each pair.
pub open spec fn spec_join_commas(items: Seq<Seq<char>>) -> Seq<char>
    decreases items.len(),
{
    if items.len() == 0 {
        Seq::empty()
    } else if items.len() == 1 {
        items[0]
    } else {
        items[0] + seq![','] + spec_join_commas(items.skip(1))
    }
}

/// Trims both ends of a string slice, by this module's whitespace set.
pub fn trim_str(s: &str) -> (r: String)
    ensures
        r@ == spec_trim(s@),
{
    let n = s.unicode_len();
    let mut lo: usize = 0;
    while lo < n && is_space_char(s.get_char(lo))
        invariant
            lo <= n,
            n == s@.len(),
            forall|j: int| 0 <= j < lo ==> spec_is_space(s@[j]),
        decreases n - lo,
    {
        lo = lo + 1;
    }
    let mut hi: usize = n;
    while hi > lo && is_space_char(s.get_char(hi - 1))
        invariant
            lo <= hi <= n,
            n == s@.len(),
            forall|j: int| 0 <= j < lo ==> spec_is_space(s@[j]),
            lo == n || !spec_is_space(s@[lo as int]),
            forall|j: int| hi <= j < n ==> spec_is_space(s@[j]),
        decreases hi,
    {
        hi = hi - 1;
    }
    let piece = s.substring_char(lo, hi);
    proof {
        lemma_trim_start_at(s@, lo as int);
        lemma_trim_end_at(s@.skip(lo as int), hi - lo);
        assert(s@.skip(lo as int).take(hi - lo) =~= s@.subrange(lo as int, hi as int));
    }
    piece.to_owned()
}

/// Helper: whether a character is in the trimmed whitespace set.
pub fn is_space_char(c: char) -> (r: bool)
    ensures
        r == spec_is_space(c),
{
    c == ' ' || c == '\t' || c == '\n' || c == '\r'
}

/// Trimming the start keeps the suffix that begins at the first
/// non-whitespace character.
proof fn lemma_trim_start_at(s: Seq<char>, lo: int)
    requires
        0 <= lo <= s.len(),
        forall|j: int| 0 <= j < lo ==> spec_is_space(s[j]),
        lo == s.len() || !spec_is_space(s[lo]),
    ensures
        spec_trim_start(s) == s.skip(lo),
    decreases lo,
{
    if lo == 0 {
        assert(s.skip(0) =~= s);
    } else {
        assert(spec_is_space(s[0]));
        let t = s.skip(1);
        assert(forall|j: int| 0 <= j < lo - 1 ==> spec_is_space(t[j]));
        lemma_trim_start_at(t, lo - 1);
        assert(t.skip(lo - 1) =~= s.skip(lo));
    }
}

/// Trimming the end keeps the prefix that ends after the last
/// non-whitespace character.
proof fn lemma_trim_end_at(s: Seq<char>, hi: int)
    requires
        0 <= hi <= s.len(),
        forall|j: int| hi <= j < s.len() ==> spec_is_space(s[j]),
        hi == 0 || !spec_is_space(s[hi - 1]),
    ensures
        spec_trim_end(s) == s.take(hi),
    decreases s.len(),
{
    if hi == s.len() {
        if s.len() > 0 {
            assert(!spec_is_space(s[s.len() - 1]));
        }
        assert(s.take(hi) =~= s);
    } else {
        assert(spec_is_space(s[s.len() - 1]));
        let t = s.take(s.len() - 1);
        assert(forall|j: int| hi <= j < t.len() ==> spec_is_space(t[j]));
        lemma_trim_end_at(t, hi);
        assert(t.take(hi) =~= s.take(hi));
    }
}

/// Splits a string slice at every comma.
pub fn split_commas(s: &str) -> (r: Vec<String>)
    ensures
        r.deep_view() == spec_split_commas(s@),
    decreases s@.len(),
{
    let n = s.unicode_len();
    let mut i: usize = 0;
    while i < n && s.get_char(i) != ','
        invariant
            i <= n,
            n == s@.len(),
            forall|j: int| 0 <= j < i ==> s@[j] != ',',
        decreases n - i,
    {
        i = i + 1;
    }
    if i == n {
        proof {
            lemma_split_no_comma(s@);
        }
        let mut v: Vec<String> = Vec::new();
        v.push(s.to_owned());
        proof {
            assert(v.deep_view() =~= spec_split_commas(s@));
        }
        v
    } else {
        let head = s.substring_char(0, i).to_owned();
        let tail = s.substring_char(i + 1, n);
        let mut rest = split_commas(tail);
        let mut v: Vec<String> = Vec::new();
        v.push(head);
        v.append(&mut rest);
        proof {
            lemma_split_first_comma(s@, i as int);
            assert(s@.subrange(0, i as int) =~= s@.take(i as int));
            assert(s@.subrange(i + 1, n as int) =~= s@.skip(i + 1));
            assert(v.deep_view() =~= spec_split_commas(s@));
        }
        v
    }
}

/// Splits at commas and trims every piece: the decoding of a list-valued
/// cell.
pub open spec fn spec_split_trimmed(s: Seq<char>) -> Seq<Seq<char>> {
    spec_split_commas(s).map_values(|p: Seq<char>| spec_trim(p))
}

/// Splits a cell at commas and trims each piece.
pub fn split_trimmed(s: &str) -> (r: Vec<String>)
    ensures
        r.deep_view() == spec_split_trimmed(s@),
{
    let pieces = split_commas(s);
    let mut out: Vec<String> = Vec::new();
    let mut i: usize = 0;
    while i < pieces.len()
        invariant
            i <= pieces.len(),
            pieces.deep_view() == spec_split_commas(s@),
            out@.len() == i,
            forall|j: int| 0 <= j < i ==> (#[trigger] out@[j])@ == spec_trim(pieces@[j]@),
        decreases pieces.len() - i,
    {
        let t = trim_str(pieces[i].as_str());
        let ghost pv = out@;
        out.push(t);
        proof {
            assert forall|j: int| 0 <= j < i + 1 implies (#[trigger] out@[j])@ == spec_trim(
                pieces@[j]@,
            ) by {
                if j < i {
                    assert(out@[j] == pv[j]);
                } else {
                    assert(out@[j] == t);
                }
            }
        }
        i = i + 1;
    }
    proof {
        assert forall|j: int| 0 <= j < out@.len() implies out.deep_view()[j]
            == spec_split_trimmed(s@)[j] by {
            assert(out.deep_view()[j] == out@[j]@);
            assert(pieces.deep_view()[j] == pieces@[j]@);
        }
        assert(out.deep_view() =~= spec_split_trimmed(s@));
    }
    out
}

/// Joins the pieces with commas: the encoding of a list-valued cell.
pub fn join_commas(items: &Vec<String>) -> (r: String)
    ensures
        r@ == spec_join_commas(items.deep_view()),
{
    let mut out = String::new();
    let mut i: usize = 0;
    while i < items.len()
        invariant
            i <= items.len(),
            out@ == spec_join_commas(items.deep_view().take(i as int)),
        decreases items.len() - i,
    {
        if i > 0 {
            out.append(",");
        }
        out.append(items[i].as_str());
        proof {
            reveal_strlit(",");
            assert(","@ =~= seq![',']);
            lemma_join_take_step(items.deep_view(), i as int);
        }
        i = i + 1;
    }
    proof {
        assert(items.deep_view().take(items.len() as int) =~= items.deep_view());
    }
    out
}

/// Unrolls the join of a prefix by one more piece.
proof fn lemma_join_take_step(items: Seq<Seq<char>>, i: int)
    requires
        0 <= i < items.len(),
    ensures
        i == 0 ==> spec_join_commas(items.take(1)) == items[0],
        i > 0 ==> spec_join_commas(items.take(i + 1)) == spec_join_commas(items.take(i))
            + seq![','] + items[i],
    decreases i,
{
    if i == 0 {
        assert(items.take(1).len() == 1);
        assert(items.take(1)[0] == items[0]);
    } else {
        let a = items.take(i + 1);
        let b = items.take(i);
        assert(a.len() == i + 1 && a.len() >= 2);
        assert(a.skip(1) =~= items.skip(1).take(i));
        assert(b.skip(1) =~= items.skip(1).take(i - 1));
        assert(a[0] == items[0] && b[0] == items[0]);
        lemma_join_take_step(items.skip(1), i - 1);
        if i == 1 {
            assert(spec_join_commas(a) == a[0] + seq![','] + spec_join_commas(a.skip(1)));
            assert(spec_join_commas(items.skip(1).take(1)) == items.skip(1)[0]);
            assert(b.len() == 1);
            assert(spec_join_commas(b) == items[0]);
        } else {
            assert(spec_join_commas(a) == a[0] + seq![','] + spec_join_commas(a.skip(1)));
            assert(spec_join_commas(b) == b[0] + seq![','] + spec_join_commas(b.skip(1)));
            assert(spec_join_commas(items.skip(1).take(i)) == spec_join_commas(
                items.skip(1).take(i - 1),
            ) + seq![','] + items.skip(1)[i - 1]);
            assert(items.skip(1)[i - 1] == items[i]);
            assert(spec_join_commas(a) =~= spec_join_commas(b) + seq![','] + items[i]);
        }
    }
}

/// The digit character of a value below ten.
pub open spec fn spec_digit_char(d: int) -> char {
    if d == 0 {
        '0'
    } else if d == 1 {
        '1'
    } else if d == 2 {
        '2'
    } else if d == 3 {
        '3'
    } else if d == 4 {
        '4'
    } else if d == 5 {
        '5'
    } else if d == 6 {
        '6'
    } else if d == 7 {
        '7'
    } else if d == 8 {
        '8'
    } else {
        '9'
    }
}

/// The decimal digits of a non-negative number, most significant first.
pub open spec fn spec_dec_digits(n: int) -> Seq<char>
    decreases n,
{
    if n < 10 {
        seq![spec_digit_char(n)]
    } else {
        spec_dec_digits(n / 10) + seq![spec_digit_char(n % 10)]
    }
}

/// One decimal digit as a string slice.
pub fn digit_str(d: u8) -> (r: &'static str)
    requires
        d < 10,
    ensures
        r@ == seq![spec_digit_char(d as int)],
{
    proof {
        reveal_strlit("0");
        reveal_strlit("1");
        reveal_strlit("2");
        reveal_strlit("3");
        reveal_strlit("4");
        reveal_strlit("5");
        reveal_strlit("6");
        reveal_strlit("7");
        reveal_strlit("8");
        reveal_strlit("9");
        assert("0"@ =~= seq!['0']);
        assert("1"@ =~= seq!['1']);
        assert("2"@ =~= seq!['2']);
        assert("3"@ =~= seq!['3']);
        assert("4"@ =~= seq!['4']);
        assert("5"@ =~= seq!['5']);
        assert("6"@ =~= seq!['6']);
        assert("7"@ =~= seq!['7']);
        assert("8"@ =~= seq!['8']);
        assert("9"@ =~= seq!['9']);
    }
    match d {
        0 => "0",
        1 => "1",
        2 => "2",
        3 => "3",
        4 => "4",
        5 => "5",
        6 => "6",
        7 => "7",
        8 => "8",
        _ => "9",
    }
}

/// Renders a number in decimal.
pub fn u64_to_dec(n: u64) -> (r: String)
    ensures
        r@ == spec_dec_digits(n as int),
    decreases n,
{
    if n < 10 {
        digit_str(n as u8).to_owned()
    } else {
        let mut s = u64_to_dec(n / 10);
        s.append(digit_str((n % 10) as u8));
        proof {
            assert(s@ =~= spec_dec_digits(n as int));
        }
        s
    }
}

/// The four digits of a value below ten thousand, zero-padded.
pub open spec fn spec_four_digits(n: int) -> Seq<char> {
    seq![
        spec_digit_char(n / 1000),
        spec_digit_char(n / 100 % 10),
        spec_digit_char(n / 10 % 10),
        spec_digit_char(n % 10),
    ]
}

/// Renders a value below ten thousand as four zero-padded digits.
pub fn u16_to_four_digits(n: u16) -> (r: String)
    requires
        n < 10000,
    ensures
        r@ == spec_four_digits(n as int),
{
    let mut s = digit_str((n / 1000) as u8).to_owned();
    s.append(digit_str((n / 100 % 10) as u8));
    s.append(digit_str((n / 10 % 10) as u8));
    s.append(digit_str((n % 10) as u8));
    proof {
        assert(s@ =~= spec_four_digits(n as int));
    }
    s
}

/// A piece that a list cell can carry losslessly: it holds no comma and no
/// whitespace at either end, so splitting and trimming give it back.
pub open spec fn spec_clean_piece(s: Seq<char>) -> bool {
    &&& forall|j: int| 0 <= j < s.len() ==> s[j] != ','
    &&& spec_trim(s) == s
}

/// Law: a non-empty list of clean pieces round-trips through the comma
/// codec: splitting and trimming the joined cell gives the list back.
pub proof fn lemma_join_split_roundtrip(items: Seq<Seq<char>>)
    requires
        items.len() >= 1,
        forall|k: int| 0 <= k < items.len() ==> spec_clean_piece(#[trigger] items[k]),
    ensures
        spec_split_trimmed(spec_join_commas(items)) == items,
    decreases items.len(),
{
    if items.len() == 1 {
        let s = items[0];
        lemma_split_no_comma(s);
        assert(spec_split_commas(s) =~= seq![s]);
        assert(spec_split_trimmed(s)[0] == spec_trim(s));
        assert(spec_split_trimmed(spec_join_commas(items)) =~= items);
    } else {
        let s = spec_join_commas(items);
        let head = items[0];
        let rest = items.skip(1);
        assert(s == head + seq![','] + spec_join_commas(rest));
        let i = head.len() as int;
        assert(s[i] == ',');
        assert(forall|j: int| 0 <= j < i ==> s[j] == head[j] && s[j] != ',');
        lemma_split_first_comma(s, i);
        assert(s.take(i) =~= head);
        assert(s.skip(i + 1) =~= spec_join_commas(rest));
        assert(forall|k: int| 0 <= k < rest.len() ==> spec_clean_piece(#[trigger] rest[k]));
        lemma_join_split_roundtrip(rest);
        let split = spec_split_commas(s);
        let tail_split = spec_split_commas(spec_join_commas(rest));
        assert(split.len() == 1 + tail_split.len());
        assert(split[0] == head);
        assert(spec_split_trimmed(s)[0] == spec_trim(head));
        assert(spec_trim(head) == head);
        assert forall|k: int| 1 <= k < split.len() implies spec_split_trimmed(s)[k] == items[k] by {
            assert(split[k] == tail_split[k - 1]);
            assert(spec_split_trimmed(spec_join_commas(rest))[k - 1] == spec_trim(
                tail_split[k - 1],
            ));
            assert(rest[k - 1] == items[k]);
        }
        assert(spec_split_trimmed(s) =~= items);
    }
}

} // verus!
