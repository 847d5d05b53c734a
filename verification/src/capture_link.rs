//! Links that the program accepts from outside: which texts are links, how a `fluxdown:` deep
//! link names its target, and which texts name a torrent file.
//!
//! The system's URL handler, the command line and the clipboard all go through these rules, so
//! that they agree on every link.

use vstd::prelude::*;
use vstd::string::StringSliceAdditionalSpecFns;
use vstd::utf8::{
    decode_utf8, encode_scalar, encode_utf8, encode_utf8_decode_utf8, encode_utf8_valid_utf8,
    valid_utf8,
};

use crate::text::{
    ends_with_ignoring_case, folded, has_prefix, has_suffix, opt_text, split, split_parts,
    starts_with_ignoring_case, strip_leading, strip_prefix, stripped, texts, without_leading,
    Separator,
};
use crate::text_laws::law_prefix_is_what_it_begins_with;

verus! {

/// The error of `String::from_utf8`: it carries the rejected bytes.
#[verifier::external_type_specification]
#[verifier::external_body]
pub struct ExFromUtf8Error(std::string::FromUtf8Error);

/// `String::from_utf8` of std: the text that the bytes encode where they are valid UTF-8, an
/// error where they are not.
pub assume_specification[ String::from_utf8 ](vec: Vec<u8>) -> (r: Result<
    String,
    std::string::FromUtf8Error,
>)
    ensures
        match r {
            Ok(s) => valid_utf8(vec@) && s@ == decode_utf8(vec@),
            Err(_) => !valid_utf8(vec@),
        },
;

/// The link prefixes from which a download can be made, in small letters.
pub open spec fn capture_schemes() -> Seq<Seq<char>> {
    seq![
        "magnet:"@,
        "ed2k://"@,
        "fluxdown:"@,
        "http://"@,
        "https://"@,
        "ftp://"@,
        "ftps://"@,
    ]
}

/// Whether a text starts with one of the link prefixes, in any case.
pub open spec fn capture_url(value: Seq<char>) -> bool {
    exists|i: int|
        0 <= i < capture_schemes().len() && has_prefix(
            folded(value),
            folded(#[trigger] capture_schemes()[i]),
        )
}

/// Whether `value` is a link from which a download can be made.
pub fn is_capture_url(value: &str) -> (r: bool)
    ensures
        r == capture_url(value@),
{
    let schemes: [&str; 7] = [
        "magnet:",
        "ed2k://",
        "fluxdown:",
        "http://",
        "https://",
        "ftp://",
        "ftps://",
    ];
    let mut i: usize = 0;
    while i < 7
        invariant
            i <= 7,
            schemes@.len() == 7,
            forall|k: int| 0 <= k < 7 ==> (#[trigger] schemes@[k])@ == capture_schemes()[k],
            forall|k: int|
                0 <= k < i ==> !has_prefix(folded(value@), folded(#[trigger] capture_schemes()[k])),
        decreases 7 - i,
    {
        if starts_with_ignoring_case(value, schemes[i]) {
            assert(has_prefix(folded(value@), folded(capture_schemes()[i as int])));
            return true;
        }
        i += 1;
    }
    false
}

/// The value of a hexadecimal digit.
pub open spec fn hex_digit(b: u8) -> Option<u8> {
    if 48 <= b <= 57 {
        Some((b - 48) as u8)
    } else if 65 <= b <= 70 {
        Some((b - 55) as u8)
    } else if 97 <= b <= 102 {
        Some((b - 87) as u8)
    } else {
        None
    }
}

pub fn hex_digit_value(b: u8) -> (r: Option<u8>)
    ensures
        r == hex_digit(b),
{
    if 48 <= b && b <= 57 {
        Some(b - 48)
    } else if 65 <= b && b <= 70 {
        Some(b - 55)
    } else if 97 <= b && b <= 102 {
        Some(b - 87)
    } else {
        None
    }
}

/// The bytes with each `%` that two hexadecimal digits follow replaced, together with them, by
/// the byte they write. Every other byte stays.
pub open spec fn decoded_bytes(bytes: Seq<u8>) -> Seq<u8>
    decreases bytes.len(),
{
    if bytes.len() == 0 {
        Seq::empty()
    } else if bytes[0] == 37 && bytes.len() >= 3 && hex_digit(bytes[1]) is Some && hex_digit(
        bytes[2],
    ) is Some {
        seq![(hex_digit(bytes[1])->0 * 16 + hex_digit(bytes[2])->0) as u8] + decoded_bytes(
            bytes.skip(3),
        )
    } else {
        seq![bytes[0]] + decoded_bytes(bytes.skip(1))
    }
}

/// A percent-encoded text decoded; a text whose decoded bytes are no UTF-8 stays as it is.
pub open spec fn percent_decoded(value: Seq<char>) -> Seq<char> {
    let bytes = decoded_bytes(encode_utf8(value));
    if valid_utf8(bytes) {
        decode_utf8(bytes)
    } else {
        value
    }
}

/// The bytes of `value` with its `%XX` sequences decoded.
pub(crate) fn decode_bytes(value: &str) -> (r: Vec<u8>)
    ensures
        r@ == decoded_bytes(encode_utf8(value@)),
{
    let bytes = value.as_bytes();
    let mut out: Vec<u8> = Vec::with_capacity(bytes.len());
    let mut index: usize = 0;
    assert(bytes@.skip(0) =~= bytes@);
    while index < bytes.len()
        invariant
            index <= bytes@.len(),
            out@ + decoded_bytes(bytes@.skip(index as int)) =~= decoded_bytes(bytes@),
        decreases bytes@.len() - index,
    {
        let ghost rest = bytes@.skip(index as int);
        let ghost was = out@;
        assert(rest.skip(1) =~= bytes@.skip(index + 1));
        let mut step: usize = 1;
        if bytes[index] == 37 && bytes.len() - index >= 3 {
            assert(rest.skip(3) =~= bytes@.skip(index + 3));
            match (hex_digit_value(bytes[index + 1]), hex_digit_value(bytes[index + 2])) {
                (Some(high), Some(low)) => {
                    out.push(high * 16 + low);
                    step = 3;
                },
                _ => {
                    out.push(bytes[index]);
                },
            }
        } else {
            out.push(bytes[index]);
        }
        assert(out@ + decoded_bytes(rest.skip(step as int)) =~= was + decoded_bytes(rest));
        index += step;
    }
    out
}

/// Decodes the `%XX` sequences of `value`. A malformed sequence stays; a text whose decoded bytes
/// are no UTF-8 is returned as it is.
pub fn percent_decode(value: &str) -> (r: String)
    ensures
        r@ == percent_decoded(value@),
{
    match String::from_utf8(decode_bytes(value)) {
        Ok(text) => text,
        Err(_) => value.to_owned(),
    }
}

/// What follows `p` in the first of the parts that start with it.
pub open spec fn first_stripped(parts: Seq<Seq<char>>, p: Seq<char>) -> Option<Seq<char>>
    decreases parts.len(),
{
    if parts.len() == 0 {
        None
    } else if has_prefix(parts[0], p) {
        stripped(parts[0], p)
    } else {
        first_stripped(parts.drop_first(), p)
    }
}

/// The encoded target that the query of a `download?` deep link names.
pub open spec fn deep_link_target(rest: Seq<char>) -> Option<Seq<char>> {
    match stripped(rest, "download?"@) {
        Some(query) => first_stripped(split(query, Separator::Exactly('&')), "url="@),
        None => None,
    }
}

/// The link that a captured text stands for: a `fluxdown:` deep link gives its decoded target,
/// any other text itself.
pub open spec fn normalized(value: Seq<char>) -> Seq<char> {
    if !has_prefix(folded(value), folded("fluxdown:"@)) {
        value
    } else {
        let rest = without_leading(value.skip("fluxdown:"@.len() as int), '/');
        match deep_link_target(rest) {
            Some(encoded) => percent_decoded(encoded),
            None => percent_decoded(rest),
        }
    }
}

/// Turns `fluxdown://download?url=<encoded>` and `fluxdown:<url>` into the link they name; any
/// other text is returned as it is.
pub fn normalize_capture_url(value: &str) -> (r: String)
    ensures
        r@ == normalized(value@),
{
    let scheme = "fluxdown:";
    if !starts_with_ignoring_case(value, scheme) {
        return value.to_owned();
    }
    let tail = value.substring_char(scheme.unicode_len(), value.unicode_len());
    assert(tail@ =~= value@.skip(scheme@.len() as int));
    let rest = strip_leading(tail, '/');
    if let Some(query) = strip_prefix(rest.as_str(), "download?") {
        let pairs = split_parts(query.as_str(), Separator::Exactly('&'));
        let ghost all = texts(pairs@);
        let mut i: usize = 0;
        assert(all.skip(0) =~= all);
        while i < pairs.len()
            invariant
                i <= pairs@.len(),
                all == texts(pairs@),
                first_stripped(all.skip(i as int), "url="@) == first_stripped(all, "url="@),
                deep_link_target(rest@) == first_stripped(all, "url="@),
                normalized(value@) == match deep_link_target(rest@) {
                    Some(encoded) => percent_decoded(encoded),
                    None => percent_decoded(rest@),
                },
            decreases pairs@.len() - i,
        {
            assert(all.skip(i as int).drop_first() =~= all.skip(i + 1));
            assert(all.skip(i as int)[0] == pairs@[i as int]@);
            if let Some(encoded) = strip_prefix(pairs[i].as_str(), "url=") {
                return percent_decode(encoded.as_str());
            }
            i += 1;
        }
    }
    percent_decode(rest.as_str())
}

/// The path that a text names, after an optional `file://` and decoded.
pub open spec fn path_of(value: Seq<char>) -> Seq<char> {
    percent_decoded(
        match stripped(value, "file://"@) {
            Some(raw) => raw,
            None => value,
        },
    )
}

/// The path of a torrent file that `value` names as a path or as a `file://` URL. Whether the
/// file exists is not asked.
pub fn torrent_file_path(value: &str) -> (r: Option<String>)
    ensures
        opt_text(r) == if has_suffix(folded(path_of(value@)), folded(".torrent"@)) {
            Some(path_of(value@))
        } else {
            None
        },
{
    let decoded = match strip_prefix(value, "file://") {
        Some(raw) => percent_decode(raw.as_str()),
        None => percent_decode(value),
    };
    if ends_with_ignoring_case(decoded.as_str(), ".torrent") {
        Some(decoded)
    } else {
        None
    }
}

/// Bytes among which there is no `%` decode to themselves.
proof fn lemma_plain_bytes(bytes: Seq<u8>)
    requires
        !bytes.contains(37),
    ensures
        decoded_bytes(bytes) == bytes,
    decreases bytes.len(),
{
    if bytes.len() > 0 {
        assert(bytes.contains(bytes[0]));
        let rest = bytes.skip(1);
        assert forall|b: u8| rest.contains(b) implies bytes.contains(b) by {
            let i = choose|i: int| 0 <= i < rest.len() && rest[i] == b;
            assert(bytes[i + 1] == b);
        }
        lemma_plain_bytes(rest);
        assert(seq![bytes[0]] + rest =~= bytes);
    }
}

/// A character other than `%` has no byte `%` in its encoding.
proof fn lemma_scalar_bytes(c: char)
    requires
        c != '%',
    ensures
        !encode_scalar(c as u32).contains(37),
{
    let v = c as u32;
    assert(v <= 0x7f ==> (v & 0x7f) as u8 == v) by (bit_vector);
    assert(0xc0u8 | ((v >> 6) & 0x1f) as u8 >= 0x80u8) by (bit_vector);
    assert(0xe0u8 | ((v >> 12) & 0x0f) as u8 >= 0x80u8) by (bit_vector);
    assert(0xf0u8 | ((v >> 18) & 0x7) as u8 >= 0x80u8) by (bit_vector);
    assert(0x80u8 | (v & 0x3f) as u8 >= 0x80u8) by (bit_vector);
    assert(0x80u8 | ((v >> 6) & 0x3f) as u8 >= 0x80u8) by (bit_vector);
    assert(0x80u8 | ((v >> 12) & 0x3f) as u8 >= 0x80u8) by (bit_vector);
}

proof fn lemma_plain_text(value: Seq<char>)
    requires
        !value.contains('%'),
    ensures
        !encode_utf8(value).contains(37),
    decreases value.len(),
{
    if value.len() > 0 {
        let rest = value.drop_first();
        assert(value.contains(value[0]));
        assert forall|c: char| rest.contains(c) implies value.contains(c) by {
            let i = choose|i: int| 0 <= i < rest.len() && rest[i] == c;
            assert(value[i + 1] == c);
        }
        lemma_plain_text(rest);
        lemma_scalar_bytes(value[0]);
        let head = encode_scalar(value[0] as u32);
        let tail = encode_utf8(rest);
        assert forall|i: int| 0 <= i < (head + tail).len() implies (head + tail)[i] != 37 by {
            if i < head.len() {
                assert(head.contains(head[i]));
            } else {
                assert(tail.contains(tail[i - head.len()]));
            }
        }
    }
}

/// A text without a `%` decodes to itself.
pub proof fn law_plain_text_decodes_to_itself(value: Seq<char>)
    requires
        !value.contains('%'),
    ensures
        percent_decoded(value) == value,
{
    lemma_plain_text(value);
    lemma_plain_bytes(encode_utf8(value));
    encode_utf8_valid_utf8(value);
    encode_utf8_decode_utf8(value);
}

/// Whether a text is a link does not depend on the case of its ASCII letters.
pub proof fn law_capture_url_ignores_case(a: Seq<char>, b: Seq<char>)
    requires
        folded(a) == folded(b),
    ensures
        capture_url(a) == capture_url(b),
{
}

/// A `fluxdown:` deep link in front of a plain link gives that link back: one without a `%`,
/// that starts neither with a slash nor with `download?`.
pub proof fn law_deep_link_gives_its_target(scheme: Seq<char>, link: Seq<char>)
    requires
        folded(scheme) == folded("fluxdown:"@),
        !link.contains('%'),
        link.len() > 0 ==> link[0] != '/',
        !has_prefix(link, "download?"@),
    ensures
        capture_url(scheme + link),
        normalized(scheme + link) == link,
{
    let value = scheme + link;
    assert(folded(scheme).len() == scheme.len() && folded("fluxdown:"@).len() == "fluxdown:"@.len());
    assert(folded(value).take("fluxdown:"@.len() as int) =~= folded(scheme));
    assert(capture_schemes()[2] == "fluxdown:"@);
    assert(value.skip("fluxdown:"@.len() as int) =~= link);
    law_plain_text_decodes_to_itself(link);
}

/// A deep link whose query names a plain target gives that target: one without a `%` or `&`.
pub proof fn law_download_query_gives_its_target(target: Seq<char>)
    requires
        !target.contains('%'),
        !target.contains('&'),
    ensures
        normalized("fluxdown://download?url="@ + target) == target,
{
    lemma_query_target(target, Seq::empty());
    assert("fluxdown://download?url="@ + target + Seq::<char>::empty()
        =~= "fluxdown://download?url="@ + target);
    law_plain_text_decodes_to_itself(target);
}

/// A hexadecimal digit as it is written.
pub open spec fn hex_char(n: int) -> char {
    if n < 10 {
        (48 + n) as u8 as char
    } else {
        (55 + n) as u8 as char
    }
}

/// Bytes as they are written in a link: those that `plain` names as characters, each other one as
/// a `%` and two hexadecimal digits.
pub open spec fn escaped_bytes(bytes: Seq<u8>, plain: spec_fn(u8) -> bool) -> Seq<char>
    decreases bytes.len(),
{
    if bytes.len() == 0 {
        Seq::empty()
    } else {
        let b = bytes[0];
        (if plain(b) {
            seq![b as char]
        } else {
            seq!['%', hex_char(b as int / 16), hex_char(b as int % 16)]
        }) + escaped_bytes(bytes.skip(1), plain)
    }
}

/// A percent-encoded text. Encoders differ in what they leave as it is: `plain` says which bytes.
pub open spec fn percent_encoded(text: Seq<char>, plain: spec_fn(u8) -> bool) -> Seq<char> {
    escaped_bytes(encode_utf8(text), plain)
}

/// Whether an encoder leaves nothing as it is that has a meaning in a query: only ASCII
/// characters, and neither `%` nor `&`.
pub open spec fn query_safe(plain: spec_fn(u8) -> bool) -> bool {
    forall|b: u8| #[trigger] plain(b) ==> b < 128 && b != 37 && b != 38
}

proof fn lemma_ascii_byte(c: char, rest: Seq<char>)
    requires
        (c as u32) < 128,
    ensures
        encode_utf8(seq![c] + rest) == seq![c as u8] + encode_utf8(rest),
{
    let v = c as u32;
    assert(v <= 0x7f ==> (v & 0x7f) as u8 == v as u8) by (bit_vector);
    let s = seq![c] + rest;
    assert(s.drop_first() =~= rest);
    assert(s[0] == c);
    assert(encode_scalar(v) =~= seq![c as u8]);
}

proof fn lemma_escaped_bytes(bytes: Seq<u8>, plain: spec_fn(u8) -> bool)
    requires
        query_safe(plain),
    ensures
        decoded_bytes(encode_utf8(escaped_bytes(bytes, plain))) == bytes,
        !escaped_bytes(bytes, plain).contains('&'),
    decreases bytes.len(),
{
    let text = escaped_bytes(bytes, plain);
    if bytes.len() == 0 {
        assert(encode_utf8(text) =~= Seq::empty());
        assert(bytes =~= Seq::empty());
    } else {
        let b = bytes[0];
        let rest = escaped_bytes(bytes.skip(1), plain);
        let coded = encode_utf8(rest);
        lemma_escaped_bytes(bytes.skip(1), plain);
        assert(seq![b] + bytes.skip(1) =~= bytes);
        if plain(b) {
            lemma_ascii_byte(b as char, rest);
            let now = seq![b] + coded;
            assert(encode_utf8(text) == now);
            assert(now.skip(1) =~= coded);
            assert(decoded_bytes(now) == seq![now[0]] + decoded_bytes(now.skip(1)));
        } else {
            let high = hex_char(b as int / 16);
            let low = hex_char(b as int % 16);
            lemma_ascii_byte(low, rest);
            lemma_ascii_byte(high, seq![low] + rest);
            lemma_ascii_byte('%', seq![high] + (seq![low] + rest));
            assert(text =~= seq!['%'] + (seq![high] + (seq![low] + rest)));
            let now = seq![37u8] + (seq![high as u8] + (seq![low as u8] + coded));
            assert(encode_utf8(text) == now);
            assert(now[0] == 37 && now[1] == high as u8 && now[2] == low as u8);
            assert(now.skip(3) =~= coded);
            assert(hex_digit(now[1]) == Some((b / 16) as u8));
            assert(hex_digit(now[2]) == Some((b % 16) as u8));
            assert(decoded_bytes(now) == seq![b] + decoded_bytes(now.skip(3)));
        }
        if text.contains('&') {
            let i = choose|i: int| 0 <= i < text.len() && text[i] == '&';
            let head = text.len() - rest.len();
            if i >= head {
                assert(rest[i - head] == '&');
            }
        }
    }
}

/// Percent-decoding gives back the text that was encoded.
pub proof fn law_decoding_undoes_encoding(text: Seq<char>, plain: spec_fn(u8) -> bool)
    requires
        query_safe(plain),
    ensures
        percent_decoded(percent_encoded(text, plain)) == text,
{
    lemma_escaped_bytes(encode_utf8(text), plain);
    encode_utf8_valid_utf8(text);
    encode_utf8_decode_utf8(text);
}

/// A deep link whose query names an encoded target gives that target, whatever it is, also where
/// more follows in the query.
pub proof fn law_encoded_target_is_given_back(
    target: Seq<char>,
    plain: spec_fn(u8) -> bool,
    more: Seq<char>,
)
    requires
        query_safe(plain),
    ensures
        normalized("fluxdown://download?url="@ + percent_encoded(target, plain)) == target,
        normalized("fluxdown://download?url="@ + percent_encoded(target, plain) + "&"@ + more)
            == target,
{
    let encoded = percent_encoded(target, plain);
    lemma_escaped_bytes(encode_utf8(target), plain);
    law_decoding_undoes_encoding(target, plain);
    reveal_strlit("&");
    lemma_query_target(encoded, Seq::empty());
    lemma_query_target(encoded, "&"@ + more);
    assert("fluxdown://download?url="@ + encoded + Seq::<char>::empty()
        =~= "fluxdown://download?url="@ + encoded);
    assert("fluxdown://download?url="@ + encoded + ("&"@ + more) =~= "fluxdown://download?url="@
        + encoded + "&"@ + more);
}

/// A deep link's query gives what stands behind `url=`, up to the next `&`.
proof fn lemma_query_target(encoded: Seq<char>, more: Seq<char>)
    requires
        !encoded.contains('&'),
        more.len() > 0 ==> more[0] == '&',
    ensures
        normalized("fluxdown://download?url="@ + encoded + more) == percent_decoded(encoded),
{
    reveal_strlit("fluxdown:");
    reveal_strlit("fluxdown://download?url=");
    reveal_strlit("download?");
    reveal_strlit("download?url=");
    reveal_strlit("url=");
    let value = "fluxdown://download?url="@ + encoded + more;
    let tail = value.skip(9);
    let rest = "download?url="@ + encoded + more;
    assert(folded(value).take(9) =~= folded("fluxdown:"@));
    assert(tail =~= seq!['/', '/'] + rest);
    assert(tail.drop_first() =~= seq!['/'] + rest);
    assert(tail.drop_first().drop_first() =~= rest);
    reveal_with_fuel(without_leading, 4);
    assert(without_leading(tail, '/') == rest);
    let first = "url="@ + encoded;
    let query = first + more;
    assert(rest.take(9) =~= "download?"@);
    assert(rest.skip(9) =~= query);
    assert forall|i: int| 0 <= i < first.len() implies first[i] != '&' by {
        if i >= 4 {
            assert(encoded.contains(encoded[i - 4]));
        }
    }
    lemma_first_part(first, more, Separator::Exactly('&'));
    assert(first.take(4) =~= "url="@);
    assert(first.skip(4) =~= encoded);
}

/// What stands before the first separator is the first part.
proof fn lemma_first_part(first: Seq<char>, more: Seq<char>, sep: Separator)
    requires
        forall|i: int| 0 <= i < first.len() ==> !sep.splits(#[trigger] first[i]),
        more.len() > 0 ==> sep.splits(more[0]),
    ensures
        split(first + more, sep).len() > 0,
        split(first + more, sep)[0] == first,
        more.len() > 0 ==> split(first + more, sep).len() > 1,
    decreases more.len(),
{
    let s = first + more;
    if more.len() == 0 {
        assert(s =~= first);
        lemma_unsplit(first, sep);
    } else {
        let rest = more.drop_last();
        assert(s.drop_last() =~= first + rest);
        assert(s.last() == more.last());
        assert(rest.len() > 0 ==> rest[0] == more[0]);
        lemma_first_part(first, rest, sep);
    }
}

/// A text without a separator is one part.
proof fn lemma_unsplit(s: Seq<char>, sep: Separator)
    requires
        forall|i: int| 0 <= i < s.len() ==> !sep.splits(#[trigger] s[i]),
    ensures
        split(s, sep) == seq![s],
    decreases s.len(),
{
    if s.len() > 0 {
        lemma_unsplit(s.drop_last(), sep);
        assert(s.drop_last().push(s.last()) =~= s);
        assert(split(s, sep) =~= seq![s]);
    } else {
        assert(s =~= Seq::empty());
    }
}

proof fn lemma_scheme_in_front(start: Seq<char>, scheme: Seq<char>, rest: Seq<char>)
    requires
        folded(start) == folded(scheme),
    ensures
        has_prefix(folded(start + rest), folded(scheme)),
{
    assert(folded(start).len() == start.len() && folded(scheme).len() == scheme.len());
    assert(folded(start + rest).take(scheme.len() as int) =~= folded(start));
}

/// What begins with one of the known schemes is a link, in whatever case the scheme is written and
/// whatever follows: the web's, files', magnets, the donkey's and the program's own.
pub proof fn law_known_schemes_make_links(
    start: Seq<char>,
    rest: Seq<char>,
    value: &str,
    link: bool,
)
    requires
        value@ == start + rest,
        call_ensures(is_capture_url, (value,), link),
        folded(start) == folded("http://"@) || folded(start) == folded("https://"@) || folded(start)
            == folded("ftp://"@) || folded(start) == folded("ftps://"@) || folded(start) == folded(
            "magnet:"@,
        ) || folded(start) == folded("ed2k://"@) || folded(start) == folded("fluxdown:"@),
    ensures
        link,
{
    let i: int = if folded(start) == folded("magnet:"@) {
        0
    } else if folded(start) == folded("ed2k://"@) {
        1
    } else if folded(start) == folded("fluxdown:"@) {
        2
    } else if folded(start) == folded("http://"@) {
        3
    } else if folded(start) == folded("https://"@) {
        4
    } else if folded(start) == folded("ftp://"@) {
        5
    } else {
        6
    };
    lemma_scheme_in_front(start, capture_schemes()[i], rest);
    assert(has_prefix(folded(value@), folded(capture_schemes()[i])));
}

/// What begins with none of the known schemes is no link.
pub proof fn law_other_texts_are_no_links(value: &str, link: bool)
    requires
        call_ensures(is_capture_url, (value,), link),
        !has_prefix(folded(value@), folded("http://"@)),
        !has_prefix(folded(value@), folded("https://"@)),
        !has_prefix(folded(value@), folded("ftp://"@)),
        !has_prefix(folded(value@), folded("ftps://"@)),
        !has_prefix(folded(value@), folded("magnet:"@)),
        !has_prefix(folded(value@), folded("ed2k://"@)),
        !has_prefix(folded(value@), folded("fluxdown:"@)),
    ensures
        !link,
{
    assert forall|i: int| 0 <= i < capture_schemes().len() implies !has_prefix(
        folded(value@),
        folded(#[trigger] capture_schemes()[i]),
    ) by {
        assert(i == 0 || i == 1 || i == 2 || i == 3 || i == 4 || i == 5 || i == 6);
    }
}

/// Any link but the program's own is taken as it is.
pub proof fn law_other_links_are_taken_as_they_are(value: &str, link: String)
    requires
        call_ensures(normalize_capture_url, (value,), link),
        !has_prefix(folded(value@), folded("fluxdown:"@)),
    ensures
        link@ == value@,
{
}

/// A path to a torrent file is given, as a file link or bare, in whatever case it ends; anything
/// else gives none.
pub proof fn law_torrent_paths_are_given(
    path: Seq<char>,
    value: &str,
    found: Option<String>,
)
    requires
        call_ensures(torrent_file_path, (value,), found),
        !path.contains('%'),
        value@ == "file://"@ + path || (value@ == path && !has_prefix(path, "file://"@)),
    ensures
        has_suffix(folded(path), folded(".torrent"@)) ==> opt_text(found) == Some(path),
        !has_suffix(folded(path), folded(".torrent"@)) ==> found is None,
{
    law_plain_text_decodes_to_itself(path);
    law_prefix_is_what_it_begins_with(value@, "file://"@, path);
}

/// The hexadecimal digits, small and capital, stand for their values, and no other character is
/// one.
pub proof fn law_hexadecimal_digits(b: u8, v: Option<u8>)
    requires
        call_ensures(hex_digit_value, (b,), v),
    ensures
        v is Some ==> v->0 < 16,
        v is Some && v->0 < 10 ==> b as char as int == '0' as int + v->0,
        v is Some && v->0 >= 10 ==> b as char as int == 'a' as int + v->0 - 10 || b as char as int
            == 'A' as int + v->0 - 10,
        v is Some <==> ('0' as u8 <= b <= '9' as u8) || ('a' as u8 <= b <= 'f' as u8) || ('A' as u8
            <= b <= 'F' as u8),
{
}

} // verus!
