//! Sticky notes: the normal form of a note's title and colour, window
//! labels, and how a pasted image is named and decoded before it is stored.
use vstd::prelude::*;

use base64::Engine;

use crate::transcription::standard_base64;
use crate::text::{
    is_digit, lemma_decimal_digits, ascii_lower_seq, ascii_lower_str, chars_of, decimal, ends_with, ends_with_str, is_blank,
    owned, push_decimal, starts_with, starts_with_str, str_eq, string_from_chars,
    string_from_range, trim, trim_chars,
};

verus! {

/// Where a pasted image was stored.
#[derive(Debug, Clone)]
pub struct StoredNoteImage {
    pub path: String,
    pub file_name: String,
    pub mime_type: String,
}

pub open spec fn untitled() -> Seq<char> {
    "無題のメモ"@
}

/// A title, trimmed and cut to 120 characters; a blank one becomes "無題のメモ".
pub open spec fn normalized_title(title: Seq<char>) -> Seq<char> {
    let t = trim(title);
    if t.len() == 0 {
        untitled()
    } else if t.len() <= 120 {
        t
    } else {
        t.take(120)
    }
}

pub fn normalize_title(title: &str) -> (r: String)
    ensures
        r@ == normalized_title(title@),
{
    let t = trim_chars(&chars_of(title));
    if t.len() == 0 {
        return owned("無題のメモ");
    }
    if t.len() <= 120 {
        string_from_chars(&t)
    } else {
        let r = string_from_range(&t, 0, 120);
        assert(t@.subrange(0, 120) =~= t@.take(120));
        r
    }
}

/// The colours a note can have.
pub open spec fn note_color(c: Seq<char>) -> bool {
    c == "lemon"@ || c == "mint"@ || c == "sky"@ || c == "rose"@ || c == "paper"@
}

/// A known colour stays; any other becomes "lemon".
pub fn normalize_color(color: &str) -> (r: String)
    ensures
        r@ == (if note_color(color@) {
            color@
        } else {
            "lemon"@
        }),
{
    if str_eq(color, "lemon") || str_eq(color, "mint") || str_eq(color, "sky") || str_eq(
        color,
        "rose",
    ) || str_eq(color, "paper") {
        owned(color)
    } else {
        owned("lemon")
    }
}

/// The label of a note's window.
pub fn sticky_window_label(id: &str) -> (r: String)
    ensures
        r@ == "sticky-"@ + id@,
{
    let mut v = chars_of("sticky-");
    crate::text::append_str_chars(&mut v, id);
    string_from_chars(&v)
}

/// The note id of a window label, when it is a note's window.
pub fn sticky_note_id_from_label(label: &str) -> (r: Option<String>)
    ensures
        starts_with(label@, "sticky-"@) ==> (r matches Some(id) && id@ == label@.skip(
            "sticky-"@.len() as int,
        )),
        !starts_with(label@, "sticky-"@) ==> r is None,
{
    if !starts_with_str(label, "sticky-") {
        return None;
    }
    let v = chars_of(label);
    let p = chars_of("sticky-");
    let r = string_from_range(&v, p.len(), v.len());
    assert(v@.subrange(p.len() as int, v.len() as int) =~= v@.skip(p.len() as int));
    Some(r)
}

/// The file extension of a supported image type.
pub open spec fn mime_extension(m: Seq<char>) -> Option<Seq<char>> {
    if m == "image/png"@ {
        Some("png"@)
    } else if m == "image/jpeg"@ || m == "image/jpg"@ {
        Some("jpg"@)
    } else if m == "image/gif"@ {
        Some("gif"@)
    } else if m == "image/webp"@ {
        Some("webp"@)
    } else {
        None
    }
}

pub fn extension_for_mime(mime_type: &str) -> (r: Option<String>)
    ensures
        match mime_extension(mime_type@) {
            Some(e) => r matches Some(x) && x@ == e,
            None => r is None,
        },
{
    if str_eq(mime_type, "image/png") {
        Some(owned("png"))
    } else if str_eq(mime_type, "image/jpeg") || str_eq(mime_type, "image/jpg") {
        Some(owned("jpg"))
    } else if str_eq(mime_type, "image/gif") {
        Some(owned("gif"))
    } else if str_eq(mime_type, "image/webp") {
        Some(owned("webp"))
    } else {
        None
    }
}

pub open spec fn ascii_alnum(c: char) -> bool {
    ('0' <= c <= '9') || ('a' <= c <= 'z') || ('A' <= c <= 'Z')
}

/// A character kept in a path part.
pub open spec fn path_char(c: char) -> bool {
    ascii_alnum(c) || c == '-' || c == '_'
}

/// Only ASCII letters, digits, '-' and '_' kept.
pub fn sanitize_path_part(value: &str) -> (r: String)
    ensures
        r@ == value@.filter(|c: char| path_char(c)),
{
    let v = chars_of(value);
    let mut out: Vec<char> = Vec::new();
    let mut i: usize = 0;
    while i < v.len()
        invariant
            0 <= i <= v.len(),
            out@ == v@.take(i as int).filter(|c: char| path_char(c)),
        decreases v.len() - i,
    {
        proof {
            reveal(Seq::filter);
        }
        assert(v@.take(i + 1).drop_last() =~= v@.take(i as int));
        let c = v[i];
        if ('0' <= c && c <= '9') || ('a' <= c && c <= 'z') || ('A' <= c && c <= 'Z') || c == '-'
            || c == '_' {
            out.push(c);
        }
        i = i + 1;
    }
    assert(v@.take(v.len() as int) =~= v@);
    string_from_chars(&out)
}

/// A character of a file name as kept; any other becomes '-'.
pub open spec fn file_char(c: char) -> char {
    if ascii_alnum(c) || c == '-' || c == '_' || c == '.' {
        c
    } else {
        '-'
    }
}

/// `s` without the leading and trailing `c`s.
pub open spec fn strip_char_front(s: Seq<char>, c: char) -> Seq<char>
    decreases s.len(),
{
    if s.len() > 0 && s[0] == c {
        strip_char_front(s.drop_first(), c)
    } else {
        s
    }
}

pub open spec fn strip_char_back(s: Seq<char>, c: char) -> Seq<char>
    decreases s.len(),
{
    if s.len() > 0 && s.last() == c {
        strip_char_back(s.drop_last(), c)
    } else {
        s
    }
}

pub open spec fn strip_char(s: Seq<char>, c: char) -> Seq<char> {
    strip_char_back(strip_char_front(s, c), c)
}

/// A safe file name: other characters as '-', then '-'s and then '.'s
/// trimmed from both ends, at most 80 characters; none when nothing is left.
pub open spec fn sanitized_file_name(v: Seq<char>) -> Option<Seq<char>> {
    let s = strip_char(strip_char(v.map_values(|c: char| file_char(c)), '-'), '.');
    if s.len() == 0 {
        None
    } else if s.len() <= 80 {
        Some(s)
    } else {
        Some(s.take(80))
    }
}

fn strip_char_exec(v: &Vec<char>, c: char) -> (r: Vec<char>)
    ensures
        r@ == strip_char(v@, c),
{
    let mut lo: usize = 0;
    assert(v@.skip(0) =~= v@);
    while lo < v.len() && v[lo] == c
        invariant
            0 <= lo <= v.len(),
            strip_char_front(v@, c) == strip_char_front(v@.skip(lo as int), c),
        decreases v.len() - lo,
    {
        assert(v@.skip(lo + 1) =~= v@.skip(lo as int).drop_first());
        lo = lo + 1;
    }
    let ghost f = v@.skip(lo as int);
    assert(f =~= v@.subrange(lo as int, v.len() as int));
    let mut hi: usize = v.len();
    while hi > lo && v[hi - 1] == c
        invariant
            lo <= hi <= v.len(),
            f == v@.subrange(lo as int, v.len() as int),
            strip_char_back(f, c) == strip_char_back(v@.subrange(lo as int, hi as int), c),
        decreases hi,
    {
        assert(v@.subrange(lo as int, hi - 1) =~= v@.subrange(lo as int, hi as int).drop_last());
        hi = hi - 1;
    }
    let mut r: Vec<char> = Vec::new();
    let mut i: usize = lo;
    while i < hi
        invariant
            lo <= i <= hi,
            hi <= v.len(),
            r@ == v@.subrange(lo as int, i as int),
        decreases hi - i,
    {
        r.push(v[i]);
        assert(r@ =~= v@.subrange(lo as int, i + 1));
        i = i + 1;
    }
    r
}

pub fn sanitize_file_name(value: &str) -> (r: Option<String>)
    ensures
        match sanitized_file_name(value@) {
            Some(s) => r matches Some(x) && x@ == s,
            None => r is None,
        },
{
    let v = chars_of(value);
    let mut mapped: Vec<char> = Vec::new();
    let mut i: usize = 0;
    while i < v.len()
        invariant
            0 <= i <= v.len(),
            mapped@ == v@.take(i as int).map_values(|c: char| file_char(c)),
        decreases v.len() - i,
    {
        let c = v[i];
        let d = if ('0' <= c && c <= '9') || ('a' <= c && c <= 'z') || ('A' <= c && c <= 'Z') || c
            == '-' || c == '_' || c == '.' {
            c
        } else {
            '-'
        };
        mapped.push(d);
        assert(mapped@ =~= v@.take(i + 1).map_values(|c: char| file_char(c)));
        i = i + 1;
    }
    assert(v@.take(v.len() as int) =~= v@);
    let s = strip_char_exec(&strip_char_exec(&mapped, '-'), '.');
    if s.len() == 0 {
        return None;
    }
    if s.len() <= 80 {
        Some(string_from_chars(&s))
    } else {
        let r = string_from_range(&s, 0, 80);
        assert(s@.subrange(0, 80) =~= s@.take(80));
        Some(r)
    }
}

/// The name ends in `.extension` (ignoring ASCII case), or gets it.
pub open spec fn with_extension(name: Seq<char>, ext: Seq<char>) -> Seq<char> {
    if ends_with(ascii_lower_seq(name), "."@ + ext) {
        name
    } else {
        name + "."@ + ext
    }
}

pub fn ensure_extension(file_name: String, extension: &str) -> (r: String)
    ensures
        r@ == with_extension(file_name@, extension@),
{
    let mut suffix = chars_of(".");
    crate::text::append_str_chars(&mut suffix, extension);
    let lower = ascii_lower_str(file_name.as_str());
    let suffix_s = string_from_chars(&suffix);
    if ends_with_str(lower.as_str(), suffix_s.as_str()) {
        file_name
    } else {
        let mut v = chars_of(file_name.as_str());
        crate::text::append_chars(&mut v, &suffix);
        string_from_chars(&v)
    }
}

/// The base64 text of a data URL: what follows its last ',' (all of it when
/// there is none).
pub open spec fn image_payload(data: Seq<char>) -> Seq<char>
    decreases data.len(),
{
    payload_from(data, data.len() as int)
}

/// The payload, looking for the last ',' before position `i`.
pub open spec fn payload_from(data: Seq<char>, i: int) -> Seq<char>
    decreases i,
{
    if i <= 0 {
        data
    } else if data[i - 1] == ',' {
        data.skip(i)
    } else {
        payload_from(data, i - 1)
    }
}

pub fn data_url_payload(data_base64: &str) -> (r: String)
    ensures
        r@ == image_payload(data_base64@),
{
    let v = chars_of(data_base64);
    let mut i: usize = v.len();
    while i > 0 && v[i - 1] != ','
        invariant
            0 <= i <= v.len(),
            payload_from(v@, v.len() as int) == payload_from(v@, i as int),
        decreases i,
    {
        i = i - 1;
    }
    if i == 0 {
        return string_from_chars(&v);
    }
    let r = string_from_range(&v, i, v.len());
    assert(v@.subrange(i as int, v.len() as int) =~= v@.skip(i as int));
    r
}

/// What decoding a text as standard base64 gives: the bytes, or the
/// decoder's error message.
pub uninterp spec fn standard_base64_decoding(s: Seq<char>) -> Result<Seq<u8>, Seq<char>>;

/// `base64::engine::general_purpose::STANDARD.decode`, with the error shown as
/// text. The engine requires canonical padding and no trailing bits, so it
/// accepts exactly the texts that its encoding writes: the decoded bytes
/// encode back to the text, and a text that no bytes encode to is refused.
/// Which error message comes back is a function of the text alone, and is
/// named rather than spelled out.
#[verifier::external_body]
fn decode_standard_base64(s: &str) -> (r: Result<Vec<u8>, String>)
    ensures
        match r {
            Ok(b) => standard_base64(b@) == s@ && standard_base64_decoding(s@) == Ok::<
                Seq<u8>,
                Seq<char>,
            >(b@),
            Err(e) => (forall|b: Seq<u8>| #[trigger] standard_base64(b) != s@)
                && standard_base64_decoding(s@) == Err::<Seq<u8>, Seq<char>>(e@),
        },
{
    match base64::engine::general_purpose::STANDARD.decode(s) {
        Ok(bytes) => Ok(bytes),
        Err(e) => Err(e.to_string()),
    }
}

/// An image ready to be written: the directory part (the note id made safe),
/// the file name, the bytes and the type.
#[derive(Debug, Clone)]
pub struct PreparedNoteImage {
    pub dir_part: String,
    pub file_name: String,
    pub bytes: Vec<u8>,
    pub mime_type: String,
}

pub open spec fn unsupported_image_message() -> Seq<char> {
    "対応していない画像形式です。"@
}

/// The stored file name: the time, '-', the given name made safe (or
/// "image-" with the time and the extension), then the extension if missing.
pub open spec fn stored_file_name(now: u64, name: Option<Seq<char>>, ext: Seq<char>) -> Seq<char> {
    let base = match name {
        Some(n) => match sanitized_file_name(n) {
            Some(s) => s,
            None => "image-"@ + decimal(now as nat) + "."@ + ext,
        },
        None => "image-"@ + decimal(now as nat) + "."@ + ext,
    };
    with_extension(decimal(now as nat) + "-"@ + base, ext)
}

/// A pasted image for a note, before it is written: the type must be a
/// supported image, the data (a data URL or bare base64) must decode.
pub fn prepare_note_image(
    note_id: &str,
    mime_type: &str,
    data_base64: &str,
    file_name: Option<String>,
    now: u64,
) -> (r: Result<PreparedNoteImage, String>)
    ensures
        r matches Ok(p) ==> standard_base64(p.bytes@) == image_payload(data_base64@),
        mime_extension(mime_type@) is Some && (exists|b: Seq<u8>| #[trigger] standard_base64(b)
            == image_payload(data_base64@)) ==> r is Ok,
        match mime_extension(mime_type@) {
            None => r matches Err(e) && e@ == unsupported_image_message(),
            Some(ext) => match standard_base64_decoding(image_payload(data_base64@)) {
                Err(msg) => r matches Err(e) && e@ == msg,
                Ok(bytes) => r matches Ok(p) && p.bytes@ == bytes && p.dir_part@ == note_id@.filter(
                    |c: char| path_char(c),
                ) && p.mime_type@ == mime_type@ && p.file_name@ == stored_file_name(
                    now,
                    match file_name {
                        Some(n) => Some(n@),
                        None => None,
                    },
                    ext,
                ),
            },
        },
{
    let extension = match extension_for_mime(mime_type) {
        Some(e) => e,
        None => {
            return Err(owned("対応していない画像形式です。"));
        },
    };
    let payload = data_url_payload(data_base64);
    let bytes = match decode_standard_base64(payload.as_str()) {
        Ok(b) => b,
        Err(e) => {
            return Err(e);
        },
    };
    let dir_part = sanitize_path_part(note_id);
    let sanitized = match &file_name {
        Some(n) => sanitize_file_name(n.as_str()),
        None => None,
    };
    let base = match sanitized {
        Some(s) => s,
        None => {
            let mut v = chars_of("image-");
            push_decimal(&mut v, now);
            v.push('.');
            crate::text::append_str_chars(&mut v, extension.as_str());
            proof {
                reveal_strlit(".");
            }
            assert(v@ =~= "image-"@ + decimal(now as nat) + "."@ + extension@);
            string_from_chars(&v)
        },
    };
    let mut name: Vec<char> = Vec::new();
    push_decimal(&mut name, now);
    name.push('-');
    crate::text::append_str_chars(&mut name, base.as_str());
    proof {
        reveal_strlit("-");
    }
    assert(name@ =~= decimal(now as nat) + "-"@ + base@);
    let file_name = ensure_extension(string_from_chars(&name), extension.as_str());
    Ok(PreparedNoteImage { dir_part, file_name, bytes, mime_type: owned(mime_type) })
}

/// No character of `s` separates path parts.
pub open spec fn no_separators(s: Seq<char>) -> bool {
    forall|k: int| 0 <= k < s.len() ==> #[trigger] s[k] != '/' && s[k] != '\\'
}

proof fn lemma_strip_front_keeps(s: Seq<char>, c: char)
    requires
        no_separators(s),
    ensures
        no_separators(strip_char_front(s, c)),
    decreases s.len(),
{
    if s.len() > 0 && s[0] == c {
        assert forall|k: int| 0 <= k < s.drop_first().len() implies #[trigger] s.drop_first()[k] != '/'
            && s.drop_first()[k] != '\\' by {
            assert(s.drop_first()[k] == s[k + 1]);
        }
        lemma_strip_front_keeps(s.drop_first(), c);
    }
}

proof fn lemma_strip_back_keeps(s: Seq<char>, c: char)
    requires
        no_separators(s),
    ensures
        no_separators(strip_char_back(s, c)),
    decreases s.len(),
{
    if s.len() > 0 && s.last() == c {
        assert forall|k: int| 0 <= k < s.drop_last().len() implies #[trigger] s.drop_last()[k] != '/'
            && s.drop_last()[k] != '\\' by {
            assert(s.drop_last()[k] == s[k]);
        }
        lemma_strip_back_keeps(s.drop_last(), c);
    }
}

proof fn lemma_sanitized_keeps(v: Seq<char>)
    ensures
        sanitized_file_name(v) matches Some(n) ==> no_separators(n),
{
    let m = v.map_values(|c: char| file_char(c));
    assert forall|k: int| 0 <= k < m.len() implies #[trigger] m[k] != '/' && m[k] != '\\' by {
        assert(m[k] == file_char(v[k]));
    }
    lemma_strip_front_keeps(m, '-');
    lemma_strip_back_keeps(strip_char_front(m, '-'), '-');
    let a = strip_char(m, '-');
    lemma_strip_front_keeps(a, '.');
    lemma_strip_back_keeps(strip_char_front(a, '.'), '.');
    let st = strip_char(a, '.');
    if st.len() > 80 {
        assert forall|k: int| 0 <= k < st.take(80).len() implies #[trigger] st.take(80)[k] != '/'
            && st.take(80)[k] != '\\' by {
            assert(st.take(80)[k] == st[k]);
        }
    }
}

proof fn lemma_decimal_keeps(n: nat)
    ensures
        no_separators(decimal(n)),
        decimal(n).len() > 0,
        is_digit(decimal(n)[0]),
{
    lemma_decimal_digits(n);
    assert forall|k: int| 0 <= k < decimal(n).len() implies #[trigger] decimal(n)[k] != '/'
        && decimal(n)[k] != '\\' by {
        assert(is_digit(decimal(n)[k]));
    }
}

proof fn lemma_concat_keeps(a: Seq<char>, b: Seq<char>)
    requires
        no_separators(a),
        no_separators(b),
    ensures
        no_separators(a + b),
{
    assert forall|k: int| 0 <= k < (a + b).len() implies #[trigger] (a + b)[k] != '/' && (a + b)[k]
        != '\\' by {
        if k < a.len() {
            assert((a + b)[k] == a[k]);
        } else {
            assert((a + b)[k] == b[k - a.len()]);
        }
    }
}

/// A pasted image stays inside its note's folder: the folder part keeps only
/// ASCII letters, digits, '-' and '_' (so no separator and no dot), and the
/// stored file name has no separator and starts with a digit (so it is never
/// "." or "..").
pub proof fn lemma_note_image_paths_stay_inside(
    note_id: Seq<char>,
    now: u64,
    name: Option<Seq<char>>,
    mime_type: Seq<char>,
)
    requires
        mime_extension(mime_type) is Some,
    ensures
        ({
            let dir = note_id.filter(|c: char| path_char(c));
            let file = stored_file_name(now, name, mime_extension(mime_type)->Some_0);
            &&& forall|k: int| 0 <= k < dir.len() ==> path_char(#[trigger] dir[k])
            &&& no_separators(file)
            &&& file.len() > 0 && is_digit(file[0])
        }),
{
    let dir = note_id.filter(|c: char| path_char(c));
    assert forall|k: int| 0 <= k < dir.len() implies path_char(#[trigger] dir[k]) by {
        note_id.lemma_filter_pred(|c: char| path_char(c), k);
    }
    let ext = mime_extension(mime_type)->Some_0;
    reveal_strlit("image/png");
    reveal_strlit("image/jpeg");
    reveal_strlit("image/jpg");
    reveal_strlit("image/gif");
    reveal_strlit("image/webp");
    reveal_strlit("png");
    reveal_strlit("jpg");
    reveal_strlit("gif");
    reveal_strlit("webp");
    assert(no_separators(ext));
    reveal_strlit(".");
    reveal_strlit("-");
    reveal_strlit("image-");
    assert(no_separators("."@));
    assert(no_separators("-"@));
    assert(no_separators("image-"@));
    lemma_decimal_keeps(now as nat);
    let d = decimal(now as nat);
    lemma_concat_keeps("image-"@, d);
    lemma_concat_keeps("image-"@ + d, "."@);
    lemma_concat_keeps("image-"@ + d + "."@, ext);
    let fallback = "image-"@ + d + "."@ + ext;
    let base = match name {
        Some(n) => match sanitized_file_name(n) {
            Some(x) => x,
            None => fallback,
        },
        None => fallback,
    };
    match name {
        Some(n) => {
            lemma_sanitized_keeps(n);
        },
        None => {},
    }
    assert(no_separators(base));
    lemma_concat_keeps(d, "-"@);
    lemma_concat_keeps(d + "-"@, base);
    let stem = d + "-"@ + base;
    lemma_concat_keeps(stem, "."@);
    lemma_concat_keeps(stem + "."@, ext);
    assert(stem[0] == d[0]);
    assert((stem + "."@ + ext)[0] == stem[0]);
}

} // verus!
