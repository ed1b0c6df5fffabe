//! Attachments: what a file is, what it may be called, who may hand it in.
use crate::door::sv;
use crate::runtime::byte_len;
use crate::text::{
    ascii_lowered, chars_of, same, string_of, string_of_range, to_ascii_lower, trim, trimmed,
};
use vstd::prelude::*;
use vstd::utf8::*;

verus! {

/// The largest file, in bytes, where nothing else was set.
pub const ATTACHMENT_MAX_BYTES: u64 = 10485760;

/// The longest name of a file, in bytes.
pub const FILENAME_MAX_BYTES: usize = 255;

/// Calls `std::str::from_utf8`, which succeeds exactly on valid UTF-8.
#[verifier::external_body]
fn is_utf8(bytes: &[u8]) -> (r: bool)
    ensures
        r == valid_utf8(bytes@),
{
    std::str::from_utf8(bytes).is_ok()
}

/// Whether bytes stand at a place.
pub open spec fn stands_at(bytes: Seq<u8>, at: int, magic: Seq<u8>) -> bool {
    bytes.len() >= at + magic.len() && bytes.subrange(at, at + magic.len()) == magic
}

/// What a file is, by its bytes; `None` where it is nothing that is taken. Text
/// is valid UTF-8 without a zero byte.
pub open spec fn sniffed(bytes: Seq<u8>) -> Option<Seq<char>> {
    if stands_at(bytes, 0, seq![0x89u8, 0x50, 0x4E, 0x47, 0x0D, 0x0A, 0x1A, 0x0A]) {
        Some("image/png"@)
    } else if stands_at(bytes, 0, seq![0xFFu8, 0xD8, 0xFF]) {
        Some("image/jpeg"@)
    } else if stands_at(bytes, 0, seq![0x52u8, 0x49, 0x46, 0x46]) && stands_at(
        bytes,
        8,
        seq![0x57u8, 0x45, 0x42, 0x50],
    ) {
        Some("image/webp"@)
    } else if stands_at(bytes, 0, seq![0x25u8, 0x50, 0x44, 0x46, 0x2D]) {
        Some("application/pdf"@)
    } else if !bytes.contains(0) && valid_utf8(bytes) {
        Some("text/plain"@)
    } else {
        None
    }
}

fn bytes_at(bytes: &[u8], at: usize, magic: &[u8]) -> (r: bool)
    requires
        at + magic@.len() <= usize::MAX,
    ensures
        r == stands_at(bytes@, at as int, magic@),
{
    if bytes.len() < at + magic.len() {
        return false;
    }
    let ghost part = bytes@.subrange(at as int, at + magic@.len());
    let mut i: usize = 0;
    while i < magic.len()
        invariant
            i <= magic@.len(),
            bytes@.len() >= at + magic@.len(),
            at + magic@.len() <= usize::MAX,
            part == bytes@.subrange(at as int, at + magic@.len()),
            forall|j: int| 0 <= j < i ==> part[j] == #[trigger] magic@[j],
        decreases magic@.len() - i,
    {
        if bytes[at + i] != magic[i] {
            assert(part[i as int] != magic@[i as int]);
            return false;
        }
        i += 1;
    }
    assert(part =~= magic@);
    true
}

fn holds_zero(bytes: &[u8]) -> (r: bool)
    ensures
        r == bytes@.contains(0),
{
    let mut i: usize = 0;
    while i < bytes.len()
        invariant
            i <= bytes@.len(),
            forall|j: int| 0 <= j < i ==> bytes@[j] != 0,
        decreases bytes@.len() - i,
    {
        if bytes[i] == 0 {
            assert(bytes@[i as int] == 0);
            return true;
        }
        i += 1;
    }
    false
}

/// What a file is, by its bytes, whatever it is said to be.
pub fn sniff_mime(bytes: &[u8]) -> (r: Option<&'static str>)
    ensures
        sv(r) == sniffed(bytes@),
{
    let png: [u8; 8] = [0x89, 0x50, 0x4E, 0x47, 0x0D, 0x0A, 0x1A, 0x0A];
    let jpeg: [u8; 3] = [0xFF, 0xD8, 0xFF];
    let riff: [u8; 4] = [0x52, 0x49, 0x46, 0x46];
    let webp: [u8; 4] = [0x57, 0x45, 0x42, 0x50];
    let pdf: [u8; 5] = [0x25, 0x50, 0x44, 0x46, 0x2D];
    assert(png@ =~= seq![0x89u8, 0x50, 0x4E, 0x47, 0x0D, 0x0A, 0x1A, 0x0A]);
    assert(jpeg@ =~= seq![0xFFu8, 0xD8, 0xFF]);
    assert(riff@ =~= seq![0x52u8, 0x49, 0x46, 0x46]);
    assert(webp@ =~= seq![0x57u8, 0x45, 0x42, 0x50]);
    assert(pdf@ =~= seq![0x25u8, 0x50, 0x44, 0x46, 0x2D]);
    if bytes_at(bytes, 0, png.as_slice()) {
        return Some("image/png");
    }
    if bytes_at(bytes, 0, jpeg.as_slice()) {
        return Some("image/jpeg");
    }
    if bytes_at(bytes, 0, riff.as_slice()) && bytes_at(bytes, 8, webp.as_slice()) {
        return Some("image/webp");
    }
    if bytes_at(bytes, 0, pdf.as_slice()) {
        return Some("application/pdf");
    }
    if !holds_zero(bytes) && is_utf8(bytes) {
        return Some("text/plain");
    }
    None
}

/// What stands before the first semicolon.
pub open spec fn before_semicolon(s: Seq<char>) -> Seq<char>
    decreases s.len(),
{
    if s.len() == 0 || s[0] == ';' {
        Seq::empty()
    } else {
        seq![s[0]] + before_semicolon(s.skip(1))
    }
}

proof fn lemma_before_semicolon(s: Seq<char>, i: int)
    requires
        0 <= i <= s.len(),
        i == s.len() || s[i] == ';',
        forall|j: int| 0 <= j < i ==> s[j] != ';',
    ensures
        before_semicolon(s) == s.take(i),
    decreases s.len(),
{
    if i == 0 {
        assert(s.take(0) =~= Seq::<char>::empty());
    } else {
        let t = s.skip(1);
        assert forall|j: int| 0 <= j < i - 1 implies t[j] != ';' by {
            assert(t[j] == s[j + 1]);
        }
        lemma_before_semicolon(t, i - 1);
        assert(s.take(i) =~= seq![s[0]] + t.take(i - 1));
    }
}

/// The type that a file is said to have, without parameters, in lower case.
pub open spec fn claimed_type(claimed: Seq<char>) -> Seq<char> {
    ascii_lowered(trimmed(before_semicolon(claimed)))
}

/// Whether what a file is said to be agrees with what it is. Bytes do not tell
/// plain text from markdown.
pub open spec fn agrees(claimed: Seq<char>, sniffed: Seq<char>) -> bool {
    let c = claimed_type(claimed);
    if sniffed == "text/plain"@ {
        c == "text/plain"@ || c == "text/markdown"@ || c == "text/x-markdown"@
    } else {
        c == sniffed
    }
}

/// Whether what a file is said to be agrees with what it is.
pub fn mime_matches(claimed: &str, sniffed: &str) -> (r: bool)
    ensures
        r == agrees(claimed@, sniffed@),
{
    let v = chars_of(claimed);
    let mut i: usize = 0;
    while i < v.len() && v[i] != ';'
        invariant
            i <= v@.len(),
            forall|j: int| 0 <= j < i ==> v@[j] != ';',
        decreases v@.len() - i,
    {
        i += 1;
    }
    proof {
        lemma_before_semicolon(v@, i as int);
        assert(v@.take(i as int) =~= v@.subrange(0, i as int));
    }
    let main = string_of_range(&v, 0, i);
    let bare = trim(main.as_str());
    let c = to_ascii_lower(bare.as_str());
    if same(sniffed, "text/plain") {
        same(c.as_str(), "text/plain") || same(c.as_str(), "text/markdown") || same(
            c.as_str(),
            "text/x-markdown",
        )
    } else {
        same(c.as_str(), sniffed)
    }
}

/// Whether a character is a control code.
pub open spec fn control(c: char) -> bool {
    c as u32 <= 0x1F || 0x7F <= c as u32 <= 0x9F
}

/// Whether a character is a control code.
pub fn is_control(c: char) -> (r: bool)
    ensures
        r == control(c),
{
    let n: u32 = c as u32;
    n <= 0x1F || (0x7F <= n && n <= 0x9F)
}

/// A name without control codes, in which nothing separates directories.
pub open spec fn flattened(s: Seq<char>) -> Seq<char>
    decreases s.len(),
{
    if s.len() == 0 {
        Seq::empty()
    } else {
        let prev = flattened(s.drop_last());
        if control(s.last()) {
            prev
        } else if s.last() == '/' || s.last() == '\\' {
            prev.push('_')
        } else {
            prev.push(s.last())
        }
    }
}

/// The longest beginning of a text that takes at most so many bytes.
pub open spec fn capped(s: Seq<char>, max: nat) -> Seq<char>
    decreases s.len(),
{
    if byte_len(s) <= max || s.len() == 0 {
        s
    } else {
        capped(s.drop_last(), max)
    }
}

/// How many bytes a character takes.
spec fn width(c: char) -> nat {
    if c as u32 <= 0x7F {
        1
    } else if c as u32 <= 0x7FF {
        2
    } else if c as u32 <= 0xFFFF {
        3
    } else {
        4
    }
}

fn width_of(c: char) -> (r: usize)
    ensures
        r == width(c),
{
    let n: u32 = c as u32;
    if n <= 0x7F {
        1
    } else if n <= 0x7FF {
        2
    } else if n <= 0xFFFF {
        3
    } else {
        4
    }
}

proof fn lemma_bytes_push(s: Seq<char>, c: char)
    ensures
        byte_len(s.push(c)) == byte_len(s) + width(c),
    decreases s.len(),
{
    let t = s.push(c);
    if s.len() == 0 {
        assert(t.drop_first() =~= Seq::<char>::empty());
        assert(encode_utf8(t.drop_first()).len() == 0);
        assert(t[0] == c);
        char_is_scalar(c);
    } else {
        lemma_bytes_push(s.drop_first(), c);
        assert(t.drop_first() =~= s.drop_first().push(c));
        assert(t[0] == s[0]);
    }
}

/// A character takes at most four bytes.
pub proof fn lemma_bytes_bounded(s: Seq<char>)
    ensures
        byte_len(s) <= 4 * s.len(),
    decreases s.len(),
{
    if s.len() > 0 {
        lemma_bytes_bounded(s.drop_last());
        lemma_bytes_push(s.drop_last(), s.last());
        assert(s.drop_last().push(s.last()) =~= s);
    }
}

proof fn lemma_bytes_grow(s: Seq<char>, i: int)
    requires
        0 <= i <= s.len(),
    ensures
        byte_len(s.take(i)) <= byte_len(s),
    decreases s.len() - i,
{
    if i == s.len() {
        assert(s.take(i) =~= s);
    } else {
        lemma_bytes_grow(s, i + 1);
        lemma_bytes_push(s.take(i), s[i]);
        assert(s.take(i).push(s[i]) =~= s.take(i + 1));
    }
}

proof fn lemma_capped(s: Seq<char>, max: nat, i: int)
    requires
        0 <= i <= s.len(),
        byte_len(s.take(i)) <= max,
        i == s.len() || byte_len(s.take(i + 1)) > max,
    ensures
        capped(s, max) == s.take(i),
    decreases s.len(),
{
    if i == s.len() {
        assert(s.take(i) =~= s);
    } else {
        lemma_bytes_grow(s, i + 1);
        let t = s.drop_last();
        assert(t.take(i) =~= s.take(i));
        if i < t.len() {
            assert(t.take(i + 1) =~= s.take(i + 1));
        }
        lemma_capped(t, max, i);
    }
}

/// Cuts a text down to at most so many bytes, between two characters.
pub fn cap_bytes(s: &str, max: usize) -> (r: String)
    ensures
        r@ == capped(s@, max as nat),
{
    let v = chars_of(s);
    let mut total: usize = 0;
    let mut i: usize = 0;
    assert(v@.take(0) =~= Seq::<char>::empty());
    while i < v.len() && width_of(v[i]) <= max - total
        invariant
            i <= v@.len(),
            v@ == s@,
            total <= max,
            total == byte_len(v@.take(i as int)),
        decreases v@.len() - i,
    {
        proof {
            lemma_bytes_push(v@.take(i as int), v@[i as int]);
            assert(v@.take(i as int).push(v@[i as int]) =~= v@.take(i as int + 1));
        }
        total += width_of(v[i]);
        i += 1;
    }
    proof {
        if i < v@.len() {
            lemma_bytes_push(v@.take(i as int), v@[i as int]);
            assert(v@.take(i as int).push(v@[i as int]) =~= v@.take(i as int + 1));
        }
        lemma_capped(v@, max as nat, i as int);
        assert(v@.take(i as int) =~= v@.subrange(0, i as int));
    }
    string_of_range(&v, 0, i)
}

/// The name of a file that came without one.
pub open spec fn usual_name(sniffed: Seq<char>) -> Seq<char> {
    if sniffed == "image/png"@ {
        "attachment.png"@
    } else if sniffed == "image/jpeg"@ {
        "attachment.jpg"@
    } else if sniffed == "image/webp"@ {
        "attachment.webp"@
    } else if sniffed == "application/pdf"@ {
        "attachment.pdf"@
    } else {
        "attachment.txt"@
    }
}

/// The name of a file that came without one.
pub fn default_name(sniffed: &str) -> (r: &'static str)
    ensures
        r@ == usual_name(sniffed@),
{
    if same(sniffed, "image/png") {
        "attachment.png"
    } else if same(sniffed, "image/jpeg") {
        "attachment.jpg"
    } else if same(sniffed, "image/webp") {
        "attachment.webp"
    } else if same(sniffed, "application/pdf") {
        "attachment.pdf"
    } else {
        "attachment.txt"
    }
}

/// What a file is called: the given name, flattened, trimmed and cut down; the
/// usual name where nothing is left.
pub open spec fn filename(raw: Option<Seq<char>>, sniffed: Seq<char>) -> Seq<char> {
    let given = match raw {
        Some(s) => s,
        None => Seq::empty(),
    };
    let c = capped(trimmed(flattened(given)), FILENAME_MAX_BYTES as nat);
    if c.len() == 0 {
        usual_name(sniffed)
    } else {
        c
    }
}

fn flatten(s: &str) -> (r: String)
    ensures
        r@ == flattened(s@),
{
    let v = chars_of(s);
    let mut out: Vec<char> = Vec::new();
    let mut i: usize = 0;
    assert(v@.take(0) =~= Seq::<char>::empty());
    while i < v.len()
        invariant
            i <= v@.len(),
            out@ == flattened(v@.take(i as int)),
        decreases v@.len() - i,
    {
        assert(v@.take(i as int + 1).drop_last() =~= v@.take(i as int));
        let c = v[i];
        if !is_control(c) {
            if c == '/' || c == '\\' {
                out.push('_');
            } else {
                out.push(c);
            }
        }
        i += 1;
    }
    assert(v@.take(v@.len() as int) =~= v@);
    string_of(&out)
}

/// What a file is called.
pub fn sanitize_filename(raw: Option<&str>, sniffed: &str) -> (r: String)
    ensures
        r@ == filename(sv(raw), sniffed@),
{
    let given = match raw {
        Some(s) => s.to_owned(),
        None => String::new(),
    };
    let flat = flatten(given.as_str());
    let bare = trim(flat.as_str());
    let name = cap_bytes(bare.as_str(), FILENAME_MAX_BYTES);
    if name.as_str().is_empty() {
        default_name(sniffed).to_owned()
    } else {
        name
    }
}

/// A name as it stands between quotes in a header.
pub open spec fn unquoted(name: Seq<char>) -> Seq<char> {
    name.map_values(
        |c: char|
            if c == '"' || c == '\\' {
                '_'
            } else {
                c
            },
    )
}

/// A name as it stands between quotes in a header.
pub fn disposition_safe(name: &str) -> (r: String)
    ensures
        r@ == unquoted(name@),
{
    let v = chars_of(name);
    let mut out: Vec<char> = Vec::new();
    let mut i: usize = 0;
    while i < v.len()
        invariant
            i <= v@.len(),
            out@ =~= unquoted(v@).take(i as int),
        decreases v@.len() - i,
    {
        let c = v[i];
        out.push(
            if c == '"' || c == '\\' {
                '_'
            } else {
                c
            },
        );
        i += 1;
    }
    assert(out@ =~= unquoted(v@));
    string_of(&out)
}

} // verus!
