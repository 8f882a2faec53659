//! URL template rendering, percent-encoding and `Content-Type` charset parsing.

use std::collections::HashMap;

use vstd::prelude::*;
use vstd::string::StringSliceAdditionalSpecFns;
use vstd::utf8::encode_utf8;

use crate::text::{
    chars_of, find_char_from, has_prefix, index_of, matches_at, occurs_at, replace_all, str_replace,
    string_from_chars, sub_chars, to_owned_string, trim, trim_chars,
};

verus! {

/// Bytes left as they are by `url_encode`: ASCII letters, digits and `- _ . ~`.
pub open spec fn is_unreserved_byte(b: u8) -> bool {
    (65 <= b <= 90) || (97 <= b <= 122) || (48 <= b <= 57) || b == 45 || b == 95 || b == 46
        || b == 126
}

/// Upper-case hexadecimal digit of `d < 16`.
pub open spec fn hex_upper_digit(d: u8) -> char {
    if d < 10 {
        (48 + d) as char
    } else {
        (55 + d) as char
    }
}

/// Encoding of one byte: itself when unreserved, else `%XY` in upper-case hex.
pub open spec fn encode_byte(b: u8) -> Seq<char> {
    if is_unreserved_byte(b) {
        seq![b as char]
    } else {
        seq!['%', hex_upper_digit(b / 16), hex_upper_digit(b % 16)]
    }
}

/// Percent-encoding of a byte string, byte by byte.
pub open spec fn percent_encode(bytes: Seq<u8>) -> Seq<char>
    decreases bytes.len(),
{
    if bytes.len() == 0 {
        Seq::empty()
    } else {
        percent_encode(bytes.drop_last()) + encode_byte(bytes.last())
    }
}

/// Decimal digits of a natural number, without leading zeros ("0" for zero).
pub open spec fn decimal(n: nat) -> Seq<char>
    decreases n,
{
    if n < 10 {
        seq![(48 + n) as char]
    } else {
        decimal(n / 10) + seq![(48 + n % 10) as char]
    }
}

fn hex_digit(d: u8) -> (c: char)
    requires
        d < 16,
    ensures
        c == hex_upper_digit(d),
{
    if d < 10 {
        (48 + d) as char
    } else {
        (55 + d) as char
    }
}

/// Percent-encodes the UTF-8 bytes of `s`, keeping letters, digits and `- _ . ~`.
pub fn url_encode(s: &str) -> (out: String)
    ensures
        out@ == percent_encode(s.spec_bytes()),
{
    let bytes = s.as_bytes();
    let mut out: Vec<char> = Vec::new();
    let mut i: usize = 0;
    while i < bytes.len()
        invariant
            i <= bytes@.len(),
            bytes@ == s.spec_bytes(),
            out@ == percent_encode(bytes@.subrange(0, i as int)),
        decreases bytes@.len() - i,
    {
        let b = bytes[i];
        let ghost before = out@;
        if (65 <= b && b <= 90) || (97 <= b && b <= 122) || (48 <= b && b <= 57) || b == 45 || b
            == 95 || b == 46 || b == 126 {
            out.push(b as char);
        } else {
            out.push('%');
            out.push(hex_digit(b / 16));
            out.push(hex_digit(b % 16));
        }
        proof {
            let pre = bytes@.subrange(0, i + 1);
            assert(pre.drop_last() =~= bytes@.subrange(0, i as int));
            assert(pre.last() == b);
            assert(out@ =~= before + encode_byte(b));
        }
        i = i + 1;
    }
    assert(bytes@.subrange(0, bytes@.len() as int) =~= bytes@);
    string_from_chars(&out)
}

/// Decimal text of a `u32`.
pub fn u32_to_decimal(n: u32) -> (s: String)
    ensures
        s@ == decimal(n as nat),
{
    let mut digits: Vec<char> = Vec::new();
    let mut m: u32 = n;
    let mut rev: Vec<char> = Vec::new();
    while m >= 10
        invariant
            decimal(n as nat) == decimal(m as nat) + rev@,
        decreases m,
    {
        let c = (48 + (m % 10) as u8) as char;
        proof {
            assert(decimal(m as nat) == decimal((m / 10) as nat) + seq![c]);
            assert(decimal(n as nat) =~= decimal((m / 10) as nat) + (seq![c] + rev@));
        }
        let mut next: Vec<char> = Vec::new();
        next.push(c);
        let mut k: usize = 0;
        while k < rev.len()
            invariant
                k <= rev@.len(),
                next@ == seq![c] + rev@.subrange(0, k as int),
            decreases rev@.len() - k,
        {
            next.push(rev[k]);
            k = k + 1;
        }
        assert(rev@.subrange(0, rev@.len() as int) =~= rev@);
        rev = next;
        m = m / 10;
    }
    let c = (48 + m as u8) as char;
    assert(decimal(m as nat) == seq![c]);
    digits.push(c);
    let mut k: usize = 0;
    let ghost first = digits@;
    while k < rev.len()
        invariant
            k <= rev@.len(),
            digits@ == first + rev@.subrange(0, k as int),
        decreases rev@.len() - k,
    {
        digits.push(rev[k]);
        k = k + 1;
    }
    assert(rev@.subrange(0, rev@.len() as int) =~= rev@);
    string_from_chars(&digits)
}


/// `s` with every occurrence of `pat` replaced by the given value, unchanged for `None`.
pub open spec fn replace_opt(s: Seq<char>, pat: Seq<char>, value: Option<Seq<char>>) -> Seq<char> {
    match value {
        Some(v) => replace_all(s, pat, v),
        None => s,
    }
}

/// Percent-encoding of an optional text, taken over its UTF-8 bytes.
pub open spec fn encode_opt(value: Option<Seq<char>>) -> Option<Seq<char>> {
    match value {
        Some(v) => Some(percent_encode(encode_utf8(v))),
        None => None,
    }
}

/// Decimal text of an optional page number.
pub open spec fn page_opt(page: Option<u32>) -> Option<Seq<char>> {
    match page {
        Some(p) => Some(decimal(p as nat)),
        None => None,
    }
}

/// View of an optional string slice.
pub open spec fn opt_str_view(value: Option<&str>) -> Option<Seq<char>> {
    match value {
        Some(v) => Some(v@),
        None => None,
    }
}

/// The URL produced from a template: `{{key}}` (encoded), `{{page}}`, `{{bookUrl}}`,
/// `{{chapterUrl}}` (verbatim), `{{vod_id}}` (encoded) are substituted in that order when a
/// value is given, and `{{type}}` is always substituted, by the empty text when absent.
pub open spec fn rendered_url(
    template: Seq<char>,
    key: Option<Seq<char>>,
    page: Option<u32>,
    book_url: Option<Seq<char>>,
    chapter_url: Option<Seq<char>>,
    vod_id: Option<Seq<char>>,
    type_: Option<Seq<char>>,
) -> Seq<char> {
    let u1 = replace_opt(template, "{{key}}"@, encode_opt(key));
    let u2 = replace_opt(u1, "{{page}}"@, page_opt(page));
    let u3 = replace_opt(u2, "{{bookUrl}}"@, book_url);
    let u4 = replace_opt(u3, "{{chapterUrl}}"@, chapter_url);
    let u5 = replace_opt(u4, "{{vod_id}}"@, encode_opt(vod_id));
    replace_all(
        u5,
        "{{type}}"@,
        match type_ {
            Some(t) => t,
            None => Seq::empty(),
        },
    )
}

/// An absent `type` renders exactly as the empty text: with no type, every `{{type}}` is
/// still substituted (by nothing), never left in the URL as a placeholder.
pub proof fn law_absent_type_renders_as_empty(
    template: Seq<char>,
    key: Option<Seq<char>>,
    page: Option<u32>,
    book_url: Option<Seq<char>>,
    chapter_url: Option<Seq<char>>,
    vod_id: Option<Seq<char>>,
)
    ensures
        rendered_url(template, key, page, book_url, chapter_url, vod_id, None) == rendered_url(
            template,
            key,
            page,
            book_url,
            chapter_url,
            vod_id,
            Some(Seq::<char>::empty()),
        ),
{
}

/// `s` holds no `{`.
pub open spec fn brace_free(s: Seq<char>) -> bool {
    forall|i: int| 0 <= i < s.len() ==> s[i] != '{'
}

proof fn lemma_replace_brace_free(s: Seq<char>, pat: Seq<char>, rep: Seq<char>)
    requires
        brace_free(s),
        pat.len() > 0,
        pat[0] == '{',
    ensures
        replace_all(s, pat, rep) == s,
    decreases s.len(),
{
    if s.len() > 0 {
        assert(!occurs_at(s, pat, 0)) by {
            if occurs_at(s, pat, 0) {
                assert(s.subrange(0, pat.len() as int)[0] == s[0]);
            }
        }
        lemma_replace_brace_free(s.skip(1), pat, rep);
        assert(seq![s[0]] + s.skip(1) =~= s);
    }
}

proof fn lemma_replace_after_brace_free(p: Seq<char>, x: Seq<char>, pat: Seq<char>, rep: Seq<char>)
    requires
        brace_free(p),
        pat.len() > 0,
        pat[0] == '{',
    ensures
        replace_all(p + x, pat, rep) == p + replace_all(x, pat, rep),
    decreases p.len(),
{
    if p.len() > 0 {
        let s = p + x;
        assert(!occurs_at(s, pat, 0)) by {
            if occurs_at(s, pat, 0) {
                assert(s.subrange(0, pat.len() as int)[0] == s[0]);
                assert(s[0] == p[0]);
            }
        }
        assert(s.skip(1) =~= p.skip(1) + x);
        lemma_replace_after_brace_free(p.skip(1), x, pat, rep);
        assert(seq![s[0]] + (p.skip(1) + replace_all(x, pat, rep)) =~= p + replace_all(x, pat, rep));
    }
}

/// A `{{type}}` placeholder between texts without braces, with no other value given, is
/// replaced by the type's text, and the empty text where no type is given; the rest of the
/// template is kept as it is.
pub proof fn law_type_placeholder_is_substituted(p: Seq<char>, q: Seq<char>, type_: Option<Seq<char>>)
    requires
        brace_free(p),
        brace_free(q),
    ensures
        rendered_url(p + "{{type}}"@ + q, None, None, None, None, None, type_) == p + (match type_ {
            Some(t) => t,
            None => Seq::<char>::empty(),
        }) + q,
{
    reveal_strlit("{{type}}");
    let pat = "{{type}}"@;
    let rep = match type_ {
        Some(t) => t,
        None => Seq::<char>::empty(),
    };
    assert(pat.len() == 8 && pat[0] == '{');
    let x = pat + q;
    assert(p + pat + q =~= p + x);
    lemma_replace_after_brace_free(p, x, pat, rep);
    assert(occurs_at(x, pat, 0)) by {
        assert(x.subrange(0, 8) =~= pat);
    }
    assert(x.skip(8) =~= q);
    lemma_replace_brace_free(q, pat, rep);
    assert(replace_all(x, pat, rep) == rep + q);
    assert(p + (rep + q) =~= p + rep + q);
}

/// Renders a URL template, substituting `{{key}}`, `{{page}}`, `{{bookUrl}}`,
/// `{{chapterUrl}}`, `{{vod_id}}` and `{{type}}`.
///
/// `key` and `vod_id` are percent-encoded; `bookUrl`/`chapterUrl` are path positions and are
/// inserted verbatim; an absent `type` is substituted by the empty text.
pub fn render_url_template(
    template: &str,
    key: Option<&str>,
    page: Option<u32>,
    book_url: Option<&str>,
    chapter_url: Option<&str>,
    vod_id: Option<&str>,
    type_: Option<&str>,
) -> (url: String)
    ensures
        url@ == rendered_url(
            template@,
            opt_str_view(key),
            page,
            opt_str_view(book_url),
            opt_str_view(chapter_url),
            opt_str_view(vod_id),
            opt_str_view(type_),
        ),
{
    proof {
        reveal_strlit("{{key}}");
        reveal_strlit("{{page}}");
        reveal_strlit("{{bookUrl}}");
        reveal_strlit("{{chapterUrl}}");
        reveal_strlit("{{vod_id}}");
        reveal_strlit("{{type}}");
    }
    let mut url = to_owned_string(template);
    if let Some(k) = key {
        let encoded = url_encode(k);
        url = str_replace(url.as_str(), "{{key}}", encoded.as_str());
    }
    let ghost u1 = replace_opt(template@, "{{key}}"@, encode_opt(opt_str_view(key)));
    assert(url@ == u1);
    if let Some(p) = page {
        let text = u32_to_decimal(p);
        url = str_replace(url.as_str(), "{{page}}", text.as_str());
    }
    let ghost u2 = replace_opt(u1, "{{page}}"@, page_opt(page));
    assert(url@ == u2);
    if let Some(bu) = book_url {
        url = str_replace(url.as_str(), "{{bookUrl}}", bu);
    }
    let ghost u3 = replace_opt(u2, "{{bookUrl}}"@, opt_str_view(book_url));
    assert(url@ == u3);
    if let Some(cu) = chapter_url {
        url = str_replace(url.as_str(), "{{chapterUrl}}", cu);
    }
    let ghost u4 = replace_opt(u3, "{{chapterUrl}}"@, opt_str_view(chapter_url));
    assert(url@ == u4);
    if let Some(v) = vod_id {
        let encoded = url_encode(v);
        url = str_replace(url.as_str(), "{{vod_id}}", encoded.as_str());
    }
    let ghost u5 = replace_opt(u4, "{{vod_id}}"@, encode_opt(opt_str_view(vod_id)));
    assert(url@ == u5);
    let ty = match type_ {
        Some(t) => t,
        None => "",
    };
    proof {
        reveal_strlit("");
        if type_.is_none() {
            assert(ty@ =~= Seq::<char>::empty());
        }
    }
    url = str_replace(url.as_str(), "{{type}}", ty);
    url
}


/// The charset a `Content-Type` value declares: the second `;`-separated part, trimmed,
/// when it starts with `charset=` or `charset =`, the rest trimmed.
pub open spec fn charset_of(content_type: Seq<char>) -> Option<Seq<char>> {
    let i = index_of(content_type, ';');
    if i >= content_type.len() {
        None
    } else {
        let rest = content_type.skip(i + 1);
        let part = trim(rest.take(index_of(rest, ';')));
        if has_prefix(part, "charset="@) {
            Some(trim(part.skip(8)))
        } else if has_prefix(part, "charset ="@) {
            Some(trim(part.skip(9)))
        } else {
            None
        }
    }
}

/// Looks up a header by its exact name.
///
/// Calls `HashMap::get`; the contract states that the value returned is the one stored
/// under a key whose characters equal `name`, and `None` when there is no such key.
#[verifier::external_body]
fn header_get(headers: &HashMap<String, String>, name: &str) -> (value: Option<String>)
    ensures
        value matches Some(v) ==> headers.deep_view().contains_key(name@)
            && headers.deep_view()[name@] == v@,
        value is None ==> !headers.deep_view().contains_key(name@),
{
    headers.get(name).cloned()
}

/// Charset declared by a `Content-Type` header value.
pub fn content_type_charset(content_type: &str) -> (charset: Option<String>)
    ensures
        charset matches Some(c) ==> charset_of(content_type@) == Some(c@),
        charset is None ==> charset_of(content_type@) is None,
{
    proof {
        reveal_strlit("charset=");
        reveal_strlit("charset =");
    }
    let ct = chars_of(content_type);
    assert(ct@.skip(0) =~= ct@);
    let i = find_char_from(&ct, ';', 0);
    if i >= ct.len() {
        return None;
    }
    let j = find_char_from(&ct, ';', i + 1);
    let seg = sub_chars(&ct, i + 1, j);
    proof {
        crate::text::lemma_index_of_bounds(ct@.skip(i + 1), ';');
        assert(seg@ =~= ct@.skip(i + 1).take(index_of(ct@.skip(i + 1), ';')));
    }
    let part = trim_chars(&seg);
    let p1 = chars_of("charset=");
    let p2 = chars_of("charset =");
    if matches_at(&part, &p1, 0) {
        let rest = sub_chars(&part, 8, part.len());
        assert(rest@ =~= part@.skip(8));
        let t = trim_chars(&rest);
        proof {
            assert(part@.subrange(0, 8) =~= "charset="@);
        }
        Some(string_from_chars(&t))
    } else if matches_at(&part, &p2, 0) {
        let rest = sub_chars(&part, 9, part.len());
        assert(rest@ =~= part@.skip(9));
        let t = trim_chars(&rest);
        proof {
            assert(!has_prefix(part@, "charset="@)) by {
                if has_prefix(part@, "charset="@) {
                    assert(part@.subrange(0, 8) =~= p1@.subrange(0, 8));
                    assert(occurs_at_zero(part@, p1@));
                }
            }
        }
        Some(string_from_chars(&t))
    } else {
        proof {
            assert(!has_prefix(part@, "charset="@)) by {
                if has_prefix(part@, "charset="@) {
                    assert(occurs_at_zero(part@, p1@));
                }
            }
            assert(!has_prefix(part@, "charset ="@)) by {
                if has_prefix(part@, "charset ="@) {
                    assert(occurs_at_zero(part@, p2@));
                }
            }
        }
        None
    }
}

spec fn occurs_at_zero(s: Seq<char>, p: Seq<char>) -> bool {
    crate::text::occurs_at(s, p, 0)
}

/// Charset declared by the `content-type` response header, if any.
pub fn parse_charset(headers: &HashMap<String, String>) -> (charset: Option<String>)
    ensures
        !headers.deep_view().contains_key("content-type"@) ==> charset is None,
        headers.deep_view().contains_key("content-type"@) ==> (match charset {
            Some(c) => charset_of(headers.deep_view()["content-type"@]) == Some(c@),
            None => charset_of(headers.deep_view()["content-type"@]) is None,
        }),
{
    match header_get(headers, "content-type") {
        Some(ct) => content_type_charset(ct.as_str()),
        None => None,
    }
}

} // verus!
