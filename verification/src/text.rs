//! Text: the string operations that the rest of the library is written with.
//!
//! A string is modelled by its sequence of characters.
use vstd::prelude::*;
use vstd::string::*;

verus! {

/// `String::push` appends one character.
pub assume_specification[ String::push ](s: &mut String, c: char)
    ensures
        final(s)@ == old(s)@.push(c),
;

/// What `str::to_lowercase` makes of a text.
pub uninterp spec fn lowercase(s: Seq<char>) -> Seq<char>;

/// Calls `str::to_lowercase`; its Unicode tables are left to the name [`lowercase`].
#[verifier::external_body]
pub(crate) fn to_lowercase(s: &str) -> (r: String)
    ensures
        r@ == lowercase(s@),
{
    s.to_lowercase()
}

/// Whether `char::is_alphanumeric` holds of a character.
pub uninterp spec fn alphanumeric(c: char) -> bool;

/// Calls `char::is_alphanumeric`; its Unicode tables are left to the name [`alphanumeric`].
#[verifier::external_body]
pub(crate) fn is_alphanumeric(c: char) -> (r: bool)
    ensures
        r == alphanumeric(c),
{
    c.is_alphanumeric()
}

/// Whether two strings hold the same characters.
pub fn same(a: &str, b: &str) -> (r: bool)
    ensures
        r == (a@ == b@),
{
    a.to_owned() == b.to_owned()
}

/// Whether an optional string is present and holds the characters of `b`.
pub fn opt_is(a: &Option<String>, b: &str) -> (r: bool)
    ensures
        r == (a matches Some(x) && x@ == b@),
{
    match a {
        Some(x) => same(x.as_str(), b),
        None => false,
    }
}

/// The characters of a string.
pub fn chars_of(s: &str) -> (v: Vec<char>)
    ensures
        v@ == s@,
{
    let mut v: Vec<char> = Vec::new();
    for c in it: s.chars()
        invariant
            v@ == it.seq().take(it.index() as int),
            it.seq() == s@,
    {
        v.push(c);
    }
    assert(s@.take(s@.len() as int) =~= s@);
    v
}

/// The string that holds the given characters.
pub fn string_of(v: &Vec<char>) -> (s: String)
    ensures
        s@ == v@,
{
    string_of_range(v, 0, v.len())
}

/// The string that holds the characters `lo..hi` of `v`.
pub fn string_of_range(v: &Vec<char>, lo: usize, hi: usize) -> (s: String)
    requires
        lo <= hi <= v@.len(),
    ensures
        s@ == v@.subrange(lo as int, hi as int),
{
    let mut s = String::new();
    let mut i: usize = lo;
    while i < hi
        invariant
            lo <= i <= hi <= v@.len(),
            s@ == v@.subrange(lo as int, i as int),
        decreases hi - i,
    {
        s.push(v[i]);
        i += 1;
        assert(s@ =~= v@.subrange(lo as int, i as int));
    }
    s
}


/// The views of the elements of a sequence.
pub open spec fn views<T: View>(s: Seq<T>) -> Seq<T::V> {
    Seq::new(s.len(), |i: int| s[i]@)
}

/// The view of an optional value.
pub open spec fn ov<T: View>(o: Option<T>) -> Option<T::V> {
    match o {
        Some(x) => Some(x@),
        None => None,
    }
}

/// A value that can be copied out, keeping its view.
pub trait Dup: View + Sized {
    /// A copy with the same view.
    fn dup(&self) -> (r: Self)
        ensures
            r@ == self@,
    ;
}

impl Dup for String {
    fn dup(&self) -> (r: Self) {
        self.clone()
    }
}

impl Dup for u64 {
    fn dup(&self) -> (r: Self) {
        *self
    }
}

/// A copy of an optional value.
pub fn dup_opt<T: Dup>(o: &Option<T>) -> (r: Option<T>)
    ensures
        ov(r) == ov(*o),
{
    match o {
        Some(x) => Some(x.dup()),
        None => None,
    }
}

/// A copy of the elements `lo..hi` of a vector.
pub fn dup_range<T: Dup>(v: &Vec<T>, lo: usize, hi: usize) -> (r: Vec<T>)
    requires
        lo <= hi <= v@.len(),
    ensures
        views(r@) == views(v@).subrange(lo as int, hi as int),
{
    let mut r: Vec<T> = Vec::new();
    let mut i: usize = lo;
    while i < hi
        invariant
            lo <= i <= hi <= v@.len(),
            views(r@) =~= views(v@).subrange(lo as int, i as int),
        decreases hi - i,
    {
        let x = v[i].dup();
        proof {
            lemma_views_push(r@, x);
        }
        r.push(x);
        i += 1;
        assert(views(v@).subrange(lo as int, i as int) =~= views(v@).subrange(
            lo as int,
            i as int - 1,
        ).push(views(v@)[i as int - 1]));
    }
    r
}

/// A copy of a vector.
pub fn dup_vec<T: Dup>(v: &Vec<T>) -> (r: Vec<T>)
    ensures
        views(r@) == views(v@),
{
    let r = dup_range(v, 0, v.len());
    assert(views(r@) =~= views(v@));
    r
}

/// Pushing onto a vector pushes the view.
pub proof fn lemma_views_push<T: View>(s: Seq<T>, x: T)
    ensures
        views(s.push(x)) == views(s).push(x@),
{
    assert(views(s.push(x)) =~= views(s).push(x@));
}

/// Whether a name stands in a list of names.
pub fn listed(v: &Vec<String>, name: &str) -> (r: bool)
    ensures
        r == views(v@).contains(name@),
{
    let mut i: usize = 0;
    while i < v.len()
        invariant
            i <= v@.len(),
            forall|j: int| 0 <= j < i ==> views(v@)[j] != name@,
        decreases v@.len() - i,
    {
        if same(v[i].as_str(), name) {
            assert(views(v@)[i as int] == name@);
            return true;
        }
        i += 1;
    }
    false
}

/// The decimal numeral of a number.
pub open spec fn numeral(n: nat) -> Seq<char>
    decreases n,
{
    if n < 10 {
        seq![digit(n)]
    } else {
        numeral(n / 10).push(digit(n % 10))
    }
}

/// The decimal digit of a number below ten.
pub open spec fn digit(n: nat) -> char {
    (48 + n) as char
}

/// Writes a number in decimal.
pub fn decimal(n: u64) -> (r: String)
    ensures
        r@ == numeral(n as nat),
    decreases n,
{
    let last: u64 = n % 10;
    let c: char = (48 + (last as u8)) as char;
    if n < 10 {
        let mut s = String::new();
        s.push(c);
        assert(s@ =~= seq![digit(n as nat)]);
        s
    } else {
        let mut s = decimal(n / 10);
        s.push(c);
        s
    }
}

/// The value of a decimal digit.
pub open spec fn digit_value(c: char) -> Option<nat> {
    if '0' <= c <= '9' {
        Some((c as nat - 48) as nat)
    } else {
        None
    }
}

/// The number that a run of decimal digits denotes, where every character is one.
pub open spec fn digits_value(s: Seq<char>) -> Option<nat>
    decreases s.len(),
{
    if s.len() == 0 {
        Some(0)
    } else {
        match (digits_value(s.drop_last()), digit_value(s.last())) {
            (Some(v), Some(d)) => Some(v * 10 + d),
            _ => None,
        }
    }
}

/// The `u64` that a text denotes: decimal digits, at least one, after an
/// optional plus sign, of a value that fits.
pub open spec fn number(s: Seq<char>) -> Option<u64> {
    let d = if s.len() > 0 && s[0] == '+' {
        s.skip(1)
    } else {
        s
    };
    if d.len() == 0 {
        None
    } else {
        match digits_value(d) {
            Some(v) => if v <= u64::MAX {
                Some(v as u64)
            } else {
                None
            },
            None => None,
        }
    }
}

proof fn lemma_digits_prefix(s: Seq<char>, i: int)
    requires
        0 <= i <= s.len(),
    ensures
        digits_value(s) is Some ==> digits_value(s.take(i)) is Some,
        digits_value(s) is Some ==> digits_value(s.take(i))->0 <= digits_value(s)->0,
    decreases s.len() - i,
{
    if i == s.len() {
        assert(s.take(i) =~= s);
    } else {
        lemma_digits_prefix(s, i + 1);
        assert(s.take(i + 1).drop_last() =~= s.take(i));
    }
}

/// Reads a `u64` written in decimal.
pub fn parse_u64(s: &str) -> (r: Option<u64>)
    ensures
        r == number(s@),
{
    let v = chars_of(s);
    let start: usize = if v.len() > 0 && v[0] == '+' {
        1
    } else {
        0
    };
    let ghost d = v@.skip(start as int);
    assert(v@.skip(0) =~= v@);
    if start == v.len() {
        return None;
    }
    let mut i: usize = start;
    let mut total: u64 = 0;
    assert(d.take(0).len() == 0);
    while i < v.len()
        invariant
            start <= i <= v@.len(),
            d == v@.skip(start as int),
            digits_value(d.take(i - start)) == Some(total as nat),
            d.len() > 0,
            number(s@) == (match digits_value(d) {
                Some(v) => if v <= u64::MAX {
                    Some(v as u64)
                } else {
                    None
                },
                None => None,
            }),
        decreases v@.len() - i,
    {
        let c = v[i];
        assert(d.take(i - start + 1).drop_last() =~= d.take(i - start));
        assert(d.take(i - start + 1).last() == c);
        proof {
            lemma_digits_prefix(d, i - start + 1);
        }
        if !('0' <= c && c <= '9') {
            return None;
        }
        let x: u64 = (c as u32 - 48) as u64;
        if total > 1844674407370955161 || (total == 1844674407370955161 && x > 5) {
            return None;
        }
        total = total * 10 + x;
        i += 1;
    }
    assert(d.take(i - start) =~= d);
    Some(total)
}

/// The characters that Unicode calls white space.
pub open spec fn white(c: char) -> bool {
    ||| '\u{9}' <= c <= '\u{d}'
    ||| c == ' '
    ||| c == '\u{85}'
    ||| c == '\u{a0}'
    ||| c == '\u{1680}'
    ||| '\u{2000}' <= c <= '\u{200a}'
    ||| c == '\u{2028}'
    ||| c == '\u{2029}'
    ||| c == '\u{202f}'
    ||| c == '\u{205f}'
    ||| c == '\u{3000}'
}

/// Whether a character is white space.
pub fn is_white(c: char) -> (r: bool)
    ensures
        r == white(c),
{
    ('\u{9}' <= c && c <= '\u{d}') || c == ' ' || c == '\u{85}' || c == '\u{a0}' || c == '\u{1680}'
        || ('\u{2000}' <= c && c <= '\u{200a}') || c == '\u{2028}' || c == '\u{2029}' || c
        == '\u{202f}' || c == '\u{205f}' || c == '\u{3000}'
}

/// The text without its leading white space.
pub open spec fn trim_start(s: Seq<char>) -> Seq<char>
    decreases s.len(),
{
    if s.len() > 0 && white(s[0]) {
        trim_start(s.skip(1))
    } else {
        s
    }
}

/// The text without its trailing white space.
pub open spec fn trim_end(s: Seq<char>) -> Seq<char>
    decreases s.len(),
{
    if s.len() > 0 && white(s.last()) {
        trim_end(s.drop_last())
    } else {
        s
    }
}

/// The text without white space at either end.
pub open spec fn trimmed(s: Seq<char>) -> Seq<char> {
    trim_end(trim_start(s))
}

/// Trims white space at both ends.
pub fn trim(s: &str) -> (r: String)
    ensures
        r@ == trimmed(s@),
{
    let v = chars_of(s);
    let mut lo: usize = 0;
    assert(v@.skip(0) =~= v@);
    while lo < v.len() && is_white(v[lo])
        invariant
            lo <= v@.len(),
            trim_start(v@) == trim_start(v@.skip(lo as int)),
        decreases v@.len() - lo,
    {
        assert(v@.skip(lo as int).skip(1) =~= v@.skip(lo as int + 1));
        lo += 1;
    }
    let ghost t = v@.skip(lo as int);
    assert(trim_start(v@) == t);
    let mut hi: usize = v.len();
    assert(t =~= v@.subrange(lo as int, hi as int));
    while hi > lo && is_white(v[hi - 1])
        invariant
            lo <= hi <= v@.len(),
            trim_end(t) == trim_end(v@.subrange(lo as int, hi as int)),
        decreases hi,
    {
        assert(v@.subrange(lo as int, hi as int).drop_last() =~= v@.subrange(
            lo as int,
            hi as int - 1,
        ));
        hi -= 1;
    }
    string_of_range(&v, lo, hi)
}

/// The lower-case counterpart of an ASCII capital, any other character itself.
pub open spec fn ascii_lower(c: char) -> char {
    if 'A' <= c <= 'Z' {
        (c as u32 + 32) as char
    } else {
        c
    }
}

/// The text with its ASCII capitals made small.
pub open spec fn ascii_lowered(s: Seq<char>) -> Seq<char> {
    Seq::new(s.len(), |i: int| ascii_lower(s[i]))
}

/// Makes the ASCII capitals of a text small.
pub fn to_ascii_lower(s: &str) -> (r: String)
    ensures
        r@ == ascii_lowered(s@),
{
    let v = chars_of(s);
    let mut r = String::new();
    let mut i: usize = 0;
    while i < v.len()
        invariant
            i <= v@.len(),
            r@ == ascii_lowered(v@.take(i as int)),
        decreases v@.len() - i,
    {
        let c = v[i];
        let d: char = if 'A' <= c && c <= 'Z' {
            (c as u8 + 32) as char
        } else {
            c
        };
        r.push(d);
        i += 1;
        assert(r@ =~= ascii_lowered(v@.take(i as int)));
    }
    assert(v@.take(v@.len() as int) =~= v@);
    r
}

/// The parts of a text between the characters that do not belong to a word. A
/// word is made of letters, digits, `@`, `-` and `_`.
pub open spec fn words(s: Seq<char>) -> Seq<Seq<char>>
    decreases s.len(),
{
    if s.len() == 0 {
        seq![Seq::empty()]
    } else {
        let before = words(s.drop_last());
        if word_char(s.last()) {
            before.update(before.len() - 1, before.last().push(s.last()))
        } else {
            before.push(Seq::empty())
        }
    }
}

/// Whether a character belongs to a word.
pub open spec fn word_char(c: char) -> bool {
    alphanumeric(c) || c == '@' || c == '-' || c == '_'
}

proof fn lemma_words_nonempty(s: Seq<char>)
    ensures
        words(s).len() > 0,
    decreases s.len(),
{
    if s.len() > 0 {
        lemma_words_nonempty(s.drop_last());
    }
}

/// Splits a text into its words.
pub fn split_words(s: &str) -> (r: Vec<String>)
    ensures
        views(r@) == words(s@),
{
    let v = chars_of(s);
    let mut r: Vec<String> = Vec::new();
    let mut cur = String::new();
    let mut i: usize = 0;
    assert(words(v@.take(0)) =~= seq![Seq::<char>::empty()]);
    assert(views(r@).push(cur@) =~= seq![Seq::<char>::empty()]);
    while i < v.len()
        invariant
            i <= v@.len(),
            views(r@).push(cur@) == words(v@.take(i as int)),
        decreases v@.len() - i,
    {
        let c = v[i];
        let ghost before = words(v@.take(i as int));
        assert(v@.take(i as int + 1).drop_last() =~= v@.take(i as int));
        if is_alphanumeric(c) || c == '@' || c == '-' || c == '_' {
            cur.push(c);
            assert(views(r@).push(cur@) =~= before.update(before.len() - 1, before.last().push(c)));
        } else {
            let done = cur;
            r.push(done);
            cur = String::new();
            assert(views(r@).push(cur@) =~= before.push(Seq::empty()));
        }
        i += 1;
    }
    assert(v@.take(v@.len() as int) =~= v@);
    let ghost all = words(v@);
    r.push(cur);
    assert(views(r@) =~= all);
    r
}

/// Whether `p` begins `s`.
pub open spec fn begins(s: Seq<char>, p: Seq<char>) -> bool {
    p.len() <= s.len() && s.take(p.len() as int) == p
}

/// Whether a text begins with another.
pub fn begins_with(s: &str, p: &str) -> (r: bool)
    ensures
        r == begins(s@, p@),
{
    let a = chars_of(s);
    let b = chars_of(p);
    if b.len() > a.len() {
        return false;
    }
    let mut i: usize = 0;
    while i < b.len()
        invariant
            i <= b@.len() <= a@.len(),
            a@ == s@,
            b@ == p@,
            forall|j: int| 0 <= j < i ==> a@[j] == b@[j],
        decreases b@.len() - i,
    {
        if a[i] != b[i] {
            assert(s@.take(p@.len() as int)[i as int] != p@[i as int]);
            return false;
        }
        i += 1;
    }
    assert(s@.take(p@.len() as int) =~= p@);
    true
}

/// Whether `a` comes before `b` in the order of their characters.
pub open spec fn before(a: Seq<char>, b: Seq<char>) -> bool
    decreases a.len(),
{
    if b.len() == 0 {
        false
    } else if a.len() == 0 {
        true
    } else if a[0] != b[0] {
        a[0] < b[0]
    } else {
        before(a.skip(1), b.skip(1))
    }
}

/// Nothing comes before itself.
pub proof fn lemma_before_irreflexive(a: Seq<char>)
    ensures
        !before(a, a),
    decreases a.len(),
{
    if a.len() > 0 {
        lemma_before_irreflexive(a.skip(1));
    }
}

/// The order is transitive.
pub proof fn lemma_before_transitive(a: Seq<char>, b: Seq<char>, c: Seq<char>)
    requires
        before(a, b),
        before(b, c),
    ensures
        before(a, c),
    decreases a.len(),
{
    if a.len() > 0 && b.len() > 0 && c.len() > 0 && a[0] == b[0] && b[0] == c[0] {
        lemma_before_transitive(a.skip(1), b.skip(1), c.skip(1));
    }
}

/// Of two different texts one comes before the other.
pub proof fn lemma_before_total(a: Seq<char>, b: Seq<char>)
    ensures
        a == b || before(a, b) || before(b, a),
    decreases a.len(),
{
    if a.len() > 0 && b.len() > 0 {
        if a[0] == b[0] {
            lemma_before_total(a.skip(1), b.skip(1));
            if a.skip(1) == b.skip(1) {
                assert(a.skip(1).len() == b.skip(1).len());
                assert(a =~= b) by {
                    assert forall|i: int| 0 <= i < a.len() implies a[i] == b[i] by {
                        if i > 0 {
                            assert(a.skip(1)[i - 1] == b.skip(1)[i - 1]);
                        }
                    }
                }
            }
        }
    } else if a.len() == 0 && b.len() == 0 {
        assert(a =~= b);
    }
}

/// Whether `a` comes before `b`.
pub fn is_before(a: &str, b: &str) -> (r: bool)
    ensures
        r == before(a@, b@),
{
    let x = chars_of(a);
    let y = chars_of(b);
    let mut i: usize = 0;
    assert(x@.skip(0) =~= x@);
    assert(y@.skip(0) =~= y@);
    while i < x.len() && i < y.len()
        invariant
            i <= x@.len(),
            i <= y@.len(),
            before(a@, b@) == before(x@.skip(i as int), y@.skip(i as int)),
        decreases x@.len() - i,
    {
        if x[i] != y[i] {
            return x[i] < y[i];
        }
        assert(x@.skip(i as int).skip(1) =~= x@.skip(i as int + 1));
        assert(y@.skip(i as int).skip(1) =~= y@.skip(i as int + 1));
        i += 1;
    }
    i < y.len()
}

/// Strictly increasing: sorted, and nothing twice.
pub open spec fn increasing(s: Seq<Seq<char>>) -> bool {
    forall|i: int, j: int| 0 <= i < j < s.len() ==> before(s[i], s[j])
}

/// A set of texts has one increasing listing.
pub proof fn lemma_increasing_unique(a: Seq<Seq<char>>, b: Seq<Seq<char>>)
    requires
        increasing(a),
        increasing(b),
        forall|x: Seq<char>| a.contains(x) <==> b.contains(x),
    ensures
        a == b,
    decreases a.len(),
{
    if a.len() == 0 {
        if b.len() > 0 {
            assert(b.contains(b[0]));
        }
        assert(a =~= b);
    } else {
        assert(a.contains(a.last()));
        assert(b.len() > 0);
        assert(b.contains(b.last()));
        let i = choose|i: int| 0 <= i < b.len() && b[i] == a.last();
        let j = choose|j: int| 0 <= j < a.len() && a[j] == b.last();
        if a.last() != b.last() {
            assert(before(a.last(), b.last()));
            assert(before(b.last(), a.last()));
            lemma_before_transitive(a.last(), b.last(), a.last());
            lemma_before_irreflexive(a.last());
        }
        let a2 = a.drop_last();
        let b2 = b.drop_last();
        assert forall|x: Seq<char>| a2.contains(x) <==> b2.contains(x) by {
            lemma_before_irreflexive(a.last());
            if a2.contains(x) {
                let k = choose|k: int| 0 <= k < a2.len() && a2[k] == x;
                assert(a[k] == x);
                assert(before(a[k], a.last()));
                assert(a.contains(x));
                let m = choose|m: int| 0 <= m < b.len() && b[m] == x;
                assert(b2[m] == x);
            }
            if b2.contains(x) {
                let k = choose|k: int| 0 <= k < b2.len() && b2[k] == x;
                assert(b[k] == x);
                assert(before(b[k], b.last()));
                assert(b.contains(x));
                let m = choose|m: int| 0 <= m < a.len() && a[m] == x;
                assert(a2[m] == x);
            }
        }
        lemma_increasing_unique(a2, b2);
        assert(a =~= a2.push(a.last()));
        assert(b =~= b2.push(b.last()));
    }
}

/// A listing of the same names, sorted, each once.
pub fn sorted_names(names: &Vec<String>) -> (r: Vec<String>)
    ensures
        increasing(views(r@)),
        views(r@).to_set() == views(names@).to_set(),
{
    let mut r: Vec<String> = Vec::new();
    let mut i: usize = 0;
    assert(views(r@).to_set() =~= views(names@).take(0).to_set());
    while i < names.len()
        invariant
            i <= names@.len(),
            increasing(views(r@)),
            views(r@).to_set() == views(names@).take(i as int).to_set(),
        decreases names@.len() - i,
    {
        let ghost before_r = views(r@);
        insert_name(&mut r, names[i].as_str());
        proof {
            let t = views(names@).take(i as int);
            let t2 = views(names@).take(i as int + 1);
            assert(t2 =~= t.push(names@[i as int]@));
            assert forall|x: Seq<char>| t2.to_set().contains(x) <==> views(r@).to_set().contains(x) by {
                assert(t.to_set().contains(x) <==> before_r.to_set().contains(x));
                if t2.contains(x) && !t.contains(x) {
                    assert(x == names@[i as int]@);
                }
                if t.contains(x) {
                    let k = choose|k: int| 0 <= k < t.len() && t[k] == x;
                    assert(t2[k] == x);
                }
                if x == names@[i as int]@ {
                    assert(t2[i as int] == x);
                }
            }
            assert(t2.to_set() =~= views(r@).to_set());
        }
        i += 1;
    }
    assert(views(names@).take(names@.len() as int) =~= views(names@));
    r
}

/// Adds a name to an increasing listing, unless it stands there.
pub fn insert_name(r: &mut Vec<String>, name: &str)
    requires
        increasing(views(old(r)@)),
    ensures
        increasing(views(final(r)@)),
        forall|x: Seq<char>|
            views(final(r)@).contains(x) <==> x == name@ || views(old(r)@).contains(x),
{
    let ghost o = views(r@);
    let mut k: usize = 0;
    while k < r.len() && is_before(r[k].as_str(), name)
        invariant
            k <= r@.len(),
            o == views(r@),
            forall|j: int| 0 <= j < k ==> before(o[j], name@),
        decreases r@.len() - k,
    {
        k += 1;
    }
    if k < r.len() && same(r[k].as_str(), name) {
        assert(o[k as int] == name@);
        return;
    }
    proof {
        if k < r@.len() {
            lemma_before_total(o[k as int], name@);
        }
        assert forall|j: int| k <= j < o.len() implies before(name@, o[j]) by {
            if j > k {
                lemma_before_transitive(name@, o[k as int], o[j]);
            }
        }
    }
    r.insert(k, name.to_owned());
    let ghost n = views(r@);
    assert(n =~= o.insert(k as int, name@));
    assert(n[k as int] == name@);
    assert forall|x: Seq<char>| n.contains(x) <==> x == name@ || o.contains(x) by {
        if o.contains(x) {
            let m = choose|m: int| 0 <= m < o.len() && o[m] == x;
            if m < k {
                assert(n[m] == x);
            } else {
                assert(n[m + 1] == x);
            }
        }
        if n.contains(x) && x != name@ {
            let m = choose|m: int| 0 <= m < n.len() && n[m] == x;
            if m < k {
                assert(o[m] == x);
            } else {
                assert(o[m - 1] == x);
            }
        }
    }
}

/// The texts one after the other, with `sep` between them.
pub open spec fn joined_text(s: Seq<Seq<char>>, sep: Seq<char>) -> Seq<char>
    decreases s.len(),
{
    if s.len() == 0 {
        Seq::empty()
    } else if s.len() == 1 {
        s[0]
    } else {
        joined_text(s.drop_last(), sep) + sep + s.last()
    }
}

/// Joins texts.
pub fn join(v: &Vec<String>, sep: &str) -> (r: String)
    ensures
        r@ == joined_text(views(v@), sep@),
{
    let mut r = String::new();
    let mut i: usize = 0;
    let ghost s = views(v@);
    assert(s.take(0) =~= Seq::<Seq<char>>::empty());
    while i < v.len()
        invariant
            i <= v@.len(),
            s == views(v@),
            r@ == joined_text(s.take(i as int), sep@),
        decreases v@.len() - i,
    {
        if i > 0 {
            r.append(sep);
        }
        r.append(v[i].as_str());
        assert(s.take(i as int + 1).drop_last() =~= s.take(i as int));
        assert(r@ =~= joined_text(s.take(i as int + 1), sep@));
        i += 1;
    }
    assert(s.take(s.len() as int) =~= s);
    r
}

/// The lower-case hexadecimal digit of a number below sixteen.
pub open spec fn hex_digit(n: nat) -> char {
    if n < 10 {
        (48 + n) as char
    } else {
        (87 + n) as char
    }
}

/// Two hexadecimal digits for each byte.
pub open spec fn hex(bytes: Seq<u8>) -> Seq<char>
    decreases bytes.len(),
{
    if bytes.len() == 0 {
        Seq::empty()
    } else {
        hex(bytes.drop_last()).push(hex_digit(bytes.last() as nat / 16)).push(
            hex_digit(bytes.last() as nat % 16),
        )
    }
}

fn hex_char(n: u8) -> (c: char)
    requires
        n < 16,
    ensures
        c == hex_digit(n as nat),
{
    if n < 10 {
        (48 + n) as char
    } else {
        (87 + n) as char
    }
}

/// `prefix` followed by the bytes in hexadecimal.
pub fn hex_token(prefix: &str, bytes: &Vec<u8>) -> (r: String)
    ensures
        r@ == prefix@ + hex(bytes@),
{
    let mut r = prefix.to_owned();
    let mut i: usize = 0;
    assert(bytes@.take(0) =~= Seq::empty());
    assert(prefix@ + hex(bytes@.take(0)) =~= prefix@);
    while i < bytes.len()
        invariant
            i <= bytes@.len(),
            r@ == prefix@ + hex(bytes@.take(i as int)),
        decreases bytes@.len() - i,
    {
        let b: u8 = bytes[i];
        r.push(hex_char(b / 16));
        r.push(hex_char(b % 16));
        assert(bytes@.take(i as int + 1).drop_last() =~= bytes@.take(i as int));
        assert(r@ =~= prefix@ + hex(bytes@.take(i as int + 1)));
        i += 1;
    }
    assert(bytes@.take(bytes@.len() as int) =~= bytes@);
    r
}

/// Writes a prefix before a text.
pub fn prefixed(prefix: &str, s: &str) -> (r: String)
    ensures
        r@ == prefix@ + s@,
{
    let mut out = prefix.to_owned();
    out.append(s);
    out
}

/// The parts of a text between separators.
pub open spec fn parts(s: Seq<char>, sep: char) -> Seq<Seq<char>>
    decreases s.len(),
{
    if s.len() == 0 {
        seq![Seq::empty()]
    } else {
        let prev = parts(s.drop_last(), sep);
        if s.last() == sep {
            prev.push(Seq::empty())
        } else {
            prev.drop_last().push(prev.last().push(s.last()))
        }
    }
}

/// The parts of a text between separators.
pub fn split_parts(s: &str, sep: char) -> (r: Vec<String>)
    ensures
        views(r@) == parts(s@, sep),
{
    let v = chars_of(s);
    let mut out: Vec<String> = Vec::new();
    let mut part: Vec<char> = Vec::new();
    let mut i: usize = 0;
    assert(v@.take(0) =~= Seq::<char>::empty());
    assert(views(out@).push(part@) =~= parts(v@.take(0), sep));
    while i < v.len()
        invariant
            i <= v@.len(),
            views(out@).push(part@) == parts(v@.take(i as int), sep),
        decreases v@.len() - i,
    {
        let ghost prev = parts(v@.take(i as int), sep);
        assert(v@.take(i as int + 1).drop_last() =~= v@.take(i as int));
        assert(prev.drop_last() =~= views(out@));
        assert(prev.last() == part@);
        if v[i] == sep {
            let x = string_of(&part);
            proof {
                lemma_views_push(out@, x);
            }
            out.push(x);
            part = Vec::new();
            assert(part@ =~= Seq::<char>::empty());
        } else {
            part.push(v[i]);
        }
        i += 1;
    }
    let x = string_of(&part);
    proof {
        lemma_views_push(out@, x);
        assert(v@.take(v@.len() as int) =~= v@);
    }
    out.push(x);
    out
}

/// What is appended without a separator belongs to the last part.
proof fn lemma_parts_append(s: Seq<char>, t: Seq<char>, sep: char)
    requires
        forall|i: int| 0 <= i < t.len() ==> t[i] != sep,
    ensures
        parts(s, sep).len() >= 1,
        parts(s + t, sep) == parts(s, sep).drop_last().push(parts(s, sep).last() + t),
    decreases t.len(), s.len(),
{
    if t.len() == 0 {
        assert(s + t =~= s);
        if s.len() > 0 {
            lemma_parts_append(s.drop_last(), t, sep);
        }
        assert(parts(s, sep).last() + t =~= parts(s, sep).last());
        assert(parts(s, sep).drop_last().push(parts(s, sep).last()) =~= parts(s, sep));
    } else {
        let t0 = t.drop_last();
        lemma_parts_append(s, t0, sep);
        assert((s + t).drop_last() =~= s + t0);
        let prev = parts(s + t0, sep);
        assert(prev.drop_last() =~= parts(s, sep).drop_last());
        assert(prev.last() =~= parts(s, sep).last() + t0);
        assert((parts(s, sep).last() + t0).push(t.last()) =~= parts(s, sep).last() + t);
    }
}

/// Texts without a separator, joined by it, come apart again.
pub proof fn lemma_parts_join(s: Seq<Seq<char>>, sep: char)
    requires
        s.len() > 0,
        forall|i: int, j: int| 0 <= i < s.len() && 0 <= j < s[i].len() ==> #[trigger] s[i][j] != sep,
    ensures
        parts(joined_text(s, seq![sep]), sep) == s,
    decreases s.len(),
{
    let none = Seq::<char>::empty();
    if s.len() == 1 {
        assert forall|j: int| 0 <= j < s[0].len() implies s[0][j] != sep by {}
        lemma_parts_append(none, s[0], sep);
        assert(none + s[0] =~= s[0]);
        assert(parts(s[0], sep) =~= s);
    } else {
        let p = s.drop_last();
        assert forall|i: int, j: int| 0 <= i < p.len() && 0 <= j < p[i].len() implies #[trigger] p[i][j]
            != sep by {
            assert(p[i] == s[i]);
            assert(s[i][j] != sep);
        }
        lemma_parts_join(p, sep);
        let a = joined_text(p, seq![sep]);
        let b = a + seq![sep];
        assert(b.drop_last() =~= a);
        assert(parts(b, sep) == p.push(none));
        let l = s.last();
        assert forall|j: int| 0 <= j < l.len() implies l[j] != sep by {
            assert(s[s.len() - 1][j] != sep);
        }
        lemma_parts_append(b, l, sep);
        assert(none + l =~= l);
        assert(p.push(none).drop_last() =~= p);
        assert(p.push(l) =~= s);
    }
}

/// A number is read back from its numeral.
pub proof fn lemma_numeral(n: nat)
    ensures
        numeral(n).len() > 0,
        forall|i: int| 0 <= i < numeral(n).len() ==> '0' <= #[trigger] numeral(n)[i] <= '9',
        digits_value(numeral(n)) == Some(n),
    decreases n,
{
    if n < 10 {
        assert(numeral(n).drop_last() =~= Seq::<char>::empty());
        assert(digits_value(Seq::<char>::empty()) == Some(0nat));
    } else {
        lemma_numeral(n / 10);
        assert(numeral(n).drop_last() =~= numeral(n / 10));
    }
}

/// A text that neither begins nor ends with white space is trimmed.
pub proof fn lemma_trimmed(s: Seq<char>)
    requires
        s.len() == 0 || (!white(s[0]) && !white(s.last())),
    ensures
        trimmed(s) == s,
{
}

} // verus!
