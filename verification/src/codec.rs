//! The base64 image codec: data-URI-style payloads, their metadata prefix,
//! and the raw bytes they carry.

use crate::S3Error;
use base64::Engine;
use vstd::prelude::*;

verus! {

/// A base64 image payload as handed in by a caller: the text of a data-URI,
/// `data:image/<subtype>;base64,<bytes>`.
#[derive(Clone, Debug, Default, PartialEq, Eq, PartialOrd, Ord)]
pub struct EncodedImage<'a> {
    /// Bytes in a base64 str
    pub bytes: &'a str,
}

/// Whether `i` is the position of the first `c` in `s`.
pub open spec fn found_at(s: Seq<char>, c: char, i: int) -> bool {
    &&& 0 <= i < s.len()
    &&& s[i] == c
    &&& forall|j: int| 0 <= j < i ==> s[j] != c
}

/// The position of the first `c` in `s`, if any stands there.
pub open spec fn first_at(s: Seq<char>, c: char) -> Option<int> {
    if exists|i: int| found_at(s, c, i) {
        Option::Some(choose|i: int| found_at(s, c, i))
    } else {
        Option::None
    }
}

/// Two first positions of the same character are one position.
proof fn lemma_found_at_unique(s: Seq<char>, c: char, i: int, j: int)
    requires
        found_at(s, c, i),
        found_at(s, c, j),
    ensures
        i == j,
{
    if i < j {
        assert(s[i] != c);
    } else if j < i {
        assert(s[j] != c);
    }
}

/// A witnessed first position settles `first_at`.
proof fn lemma_first_at_is(s: Seq<char>, c: char, i: int)
    requires
        found_at(s, c, i),
    ensures
        first_at(s, c) == Option::Some(i),
{
    let j = choose|j: int| found_at(s, c, j);
    lemma_found_at_unique(s, c, i, j);
}

/// A character that occurs nowhere has no first position.
proof fn lemma_first_at_none(s: Seq<char>, c: char)
    requires
        forall|j: int| 0 <= j < s.len() ==> s[j] != c,
    ensures
        first_at(s, c) is None,
{
    if exists|i: int| found_at(s, c, i) {
        let i = choose|i: int| found_at(s, c, i);
        assert(s[i] == c);
    }
}

/// The file extension a metadata prefix names: the text between the first `/`
/// and the next `/` or the end of the segment before the first `;`. `None`
/// where the prefix misses the `;` or the `/` of the
/// `data:image/<subtype>;base64,` shape.
pub open spec fn extension_of(s: Seq<char>) -> Option<Seq<char>> {
    match first_at(s, ';') {
        Option::None => Option::None,
        Option::Some(semi) => {
            let seg = s.take(semi);
            match first_at(seg, '/') {
                Option::None => Option::None,
                Option::Some(sl) => {
                    let rest = seg.skip(sl + 1);
                    match first_at(rest, '/') {
                        Option::None => Option::Some(rest),
                        Option::Some(sl2) => Option::Some(rest.take(sl2)),
                    }
                },
            }
        },
    }
}

/// The base64 text of a payload: everything after the first comma. `None`
/// where no comma separates the metadata prefix from the payload.
pub open spec fn payload_of(s: Seq<char>) -> Option<Seq<char>> {
    match first_at(s, ',') {
        Option::None => Option::None,
        Option::Some(comma) => Option::Some(s.skip(comma + 1)),
    }
}

/// What the standard base64 engine makes of a byte sequence: the text of its
/// padded encoding.
pub uninterp spec fn base64_encoded(bytes: Seq<u8>) -> Seq<char>;

/// What the standard base64 engine makes of a text: `None` where the text is
/// not a valid padded base64 encoding, else the decoded bytes.
pub uninterp spec fn base64_decoded(s: Seq<char>) -> Option<Seq<u8>>;

/// Relies on `base64::engine::general_purpose::STANDARD.encode`: it depends
/// on the bytes alone, writes only the padded standard alphabet (`A`-`Z`,
/// `a`-`z`, `0`-`9`, `+`, `/`, `=`, so never `;` or `,`), and its output
/// decodes with the same engine back to the input bytes.
#[verifier::external_body]
fn base64_encode(bytes: &Vec<u8>) -> (r: String)
    ensures
        r@ == base64_encoded(bytes@),
        base64_decoded(r@) == Some(bytes@),
        forall|i: int| 0 <= i < r@.len() ==> r@[i] != ';' && r@[i] != ',',
{
    base64::engine::general_purpose::STANDARD.encode(bytes)
}

/// Relies on `base64::engine::general_purpose::STANDARD.decode`: it depends
/// on the text alone and rejects, with an error instead of a panic, any text
/// that is not a padded standard-alphabet encoding.
#[verifier::external_body]
fn base64_decode(text: &str) -> (r: Option<Vec<u8>>)
    ensures
        r is Some <==> base64_decoded(text@) is Some,
        (r matches Some(b) ==> base64_decoded(text@) == Some(b@)),
{
    match base64::engine::general_purpose::STANDARD.decode(text) {
        Ok(b) => Some(b),
        Err(_) => None,
    }
}

/// Relies on `rand::random`: a fresh value from the thread-local generator,
/// of which nothing further is promised.
pub assume_specification<T>[ rand::random::<T> ]() -> (r: T)
    where
        rand::distributions::Standard: rand::distributions::Distribution<T>,
;

/// What the decimal formatting of a `u64` looks like: it depends on the
/// number alone.
pub uninterp spec fn decimal_of(n: u64) -> Seq<char>;

/// Relies on `format!` over `u64`'s `Display`: the decimal digits of the
/// number.
#[verifier::external_body]
fn u64_to_string(n: u64) -> (r: String)
    ensures
        r@ == decimal_of(n),
{
    format!("{}", n)
}

/// The position of the first `c` in `s` at or after `from` and before `to`.
fn find_char_in(s: &str, c: char, from: usize, to: usize) -> (r: Option<usize>)
    requires
        from <= to <= s@.len(),
    ensures
        (r matches Some(i) ==> from <= i < to && s@[i as int] == c && (forall|j: int|
            from <= j < i ==> s@[j] != c)),
        (r is None ==> forall|j: int| from <= j < to ==> s@[j] != c),
{
    let mut i: usize = from;
    while i < to
        invariant
            from <= i <= to <= s@.len(),
            forall|j: int| from <= j < i ==> s@[j] != c,
        decreases to - i,
    {
        if s.get_char(i) == c {
            return Some(i);
        }
        i = i + 1;
    }
    None
}

/// Extract the file extension out of a metadata prefix, `"png"` out of
/// `"data:image/png;base64,..."`: the payload is split on the first `;`, what
/// stands before it on the first `/`, and the second piece is the extension.
/// A payload missing either delimiter is a `MetadataFormatError`.
pub fn extract_extension_from_base64_metadata(base64: &str) -> (r: Result<String, S3Error>)
    ensures
        r is Ok <==> extension_of(base64@) is Some,
        (r matches Ok(ext) ==> extension_of(base64@) == Some(ext@)),
        r is Err ==> r == Err::<String, S3Error>(S3Error::MetadataFormatError),
{
    let n = base64.unicode_len();
    let semi = match find_char_in(base64, ';', 0, n) {
        Some(i) => i,
        None => {
            proof {
                lemma_first_at_none(base64@, ';');
            }
            return Err(S3Error::MetadataFormatError);
        },
    };
    proof {
        lemma_first_at_is(base64@, ';', semi as int);
    }
    let ghost seg = base64@.take(semi as int);
    let sl = match find_char_in(base64, '/', 0, semi) {
        Some(i) => i,
        None => {
            proof {
                assert forall|j: int| 0 <= j < seg.len() implies seg[j] != '/' by {
                    assert(seg[j] == base64@[j]);
                }
                lemma_first_at_none(seg, '/');
            }
            return Err(S3Error::MetadataFormatError);
        },
    };
    proof {
        assert(found_at(seg, '/', sl as int)) by {
            assert forall|j: int| 0 <= j < sl implies seg[j] != '/' by {
                assert(seg[j] == base64@[j]);
            }
        }
        lemma_first_at_is(seg, '/', sl as int);
    }
    let ghost rest = seg.skip(sl + 1);
    let end = match find_char_in(base64, '/', sl + 1, semi) {
        Some(i) => i,
        None => semi,
    };
    proof {
        if end < semi {
            assert(found_at(rest, '/', end - (sl + 1))) by {
                assert(rest[end - (sl + 1)] == base64@[end as int]);
                assert forall|j: int| 0 <= j < end - (sl + 1) implies rest[j] != '/' by {
                    assert(rest[j] == base64@[j + sl + 1]);
                }
            }
            lemma_first_at_is(rest, '/', end - (sl + 1));
        } else {
            assert forall|j: int| 0 <= j < rest.len() implies rest[j] != '/' by {
                assert(rest[j] == base64@[j + sl + 1]);
            }
            lemma_first_at_none(rest, '/');
        }
    }
    let ext = base64.substring_char(sl + 1, end);
    proof {
        if end < semi {
            assert(ext@ =~= rest.take(end - (sl + 1)));
        } else {
            assert(ext@ =~= rest);
        }
    }
    Ok(String::from_str(ext))
}

/// The raw bytes carried by a data-URI-style base64 payload: the text after
/// the first comma, base64-decoded. `None` where the metadata prefix is not
/// well formed, no comma follows it, or the payload text is not valid base64.
pub open spec fn decoded_bytes_of(s: Seq<char>) -> Option<Seq<u8>> {
    if extension_of(s) is None {
        Option::None
    } else {
        match payload_of(s) {
            Option::None => Option::None,
            Option::Some(p) => base64_decoded(p),
        }
    }
}

/// Decode a base64 image payload into its raw bytes, together with a
/// suggested file name: a fresh random number joined by a dot to the
/// extension the metadata prefix names. A payload whose prefix, comma or
/// base64 text is malformed is a `MetadataFormatError`.
pub fn decode_base64_to_image(image: EncodedImage<'_>) -> (r: Result<(Vec<u8>, String), S3Error>)
    ensures
        r is Ok <==> decoded_bytes_of(image.bytes@) is Some,
        (r matches Ok(t) ==> decoded_bytes_of(image.bytes@) == Some(t.0@) && (exists|n: u64|
            t.1@ == decimal_of(n) + "."@ + extension_of(image.bytes@).unwrap())),
        r is Err ==> r == Err::<(Vec<u8>, String), S3Error>(S3Error::MetadataFormatError),
{
    let ext = match extract_extension_from_base64_metadata(image.bytes) {
        Ok(e) => e,
        Err(e) => {
            return Err(e);
        },
    };
    let n = image.bytes.unicode_len();
    let comma = match find_char_in(image.bytes, ',', 0, n) {
        Some(i) => i,
        None => {
            proof {
                lemma_first_at_none(image.bytes@, ',');
            }
            return Err(S3Error::MetadataFormatError);
        },
    };
    proof {
        lemma_first_at_is(image.bytes@, ',', comma as int);
    }
    let payload = image.bytes.substring_char(comma + 1, n);
    proof {
        assert(payload@ =~= image.bytes@.skip(comma + 1));
    }
    let bytes = match base64_decode(payload) {
        Some(b) => b,
        None => {
            return Err(S3Error::MetadataFormatError);
        },
    };
    let id: u64 = rand::random::<u64>();
    let mut name = u64_to_string(id);
    name.append(".");
    name.append(ext.as_str());
    Ok((bytes, name))
}

/// A data-URI-style base64 payload: the metadata prefix naming the extension,
/// then the base64 text of the bytes.
pub open spec fn data_uri_of(ext: Seq<char>, payload: Seq<char>) -> Seq<char> {
    "data:image/"@ + ext + ";base64,"@ + payload
}

/// An extension that can sit in a metadata prefix: free of the three
/// delimiters of the data-URI shape.
pub open spec fn wf_extension(ext: Seq<char>) -> bool {
    forall|i: int| 0 <= i < ext.len() ==> ext[i] != ';' && ext[i] != '/' && ext[i] != ','
}

/// A freshly built data-URI payload parses back into its parts.
proof fn lemma_data_uri_parses(ext: Seq<char>, payload: Seq<char>)
    requires
        wf_extension(ext),
        forall|i: int| 0 <= i < payload.len() ==> payload[i] != ';' && payload[i] != ',',
    ensures
        extension_of(data_uri_of(ext, payload)) == Option::Some(ext),
        payload_of(data_uri_of(ext, payload)) == Option::Some(payload),
{
    reveal_strlit("data:image/");
    reveal_strlit(";base64,");
    let pre = "data:image/"@;
    let mid = ";base64,"@;
    let s = data_uri_of(ext, payload);
    assert(pre.len() == 11);
    assert(mid.len() == 8);
    let semi = 11 + ext.len() as int;
    assert(s[semi] == ';');
    assert(found_at(s, ';', semi)) by {
        assert forall|j: int| 0 <= j < semi implies s[j] != ';' by {
            if j < 11 {
                assert(s[j] == pre[j]);
            } else {
                assert(s[j] == ext[j - 11]);
            }
        }
    }
    lemma_first_at_is(s, ';', semi);
    let seg = s.take(semi);
    assert(seg =~= pre + ext);
    assert(found_at(seg, '/', 10)) by {
        assert(seg[10] == pre[10]);
        assert forall|j: int| 0 <= j < 10 implies seg[j] != '/' by {
            assert(seg[j] == pre[j]);
        }
    }
    lemma_first_at_is(seg, '/', 10);
    let rest = seg.skip(11);
    assert(rest =~= ext);
    lemma_first_at_none(rest, '/');
    assert(extension_of(s) == Option::Some(ext));
    let comma = semi + 7;
    assert(s[comma] == mid[7]);
    assert(found_at(s, ',', comma)) by {
        assert forall|j: int| 0 <= j < comma implies s[j] != ',' by {
            if j < 11 {
                assert(s[j] == pre[j]);
            } else if j < semi {
                assert(s[j] == ext[j - 11]);
            } else {
                assert(s[j] == mid[j - semi]);
            }
        }
    }
    lemma_first_at_is(s, ',', comma);
    assert(s.skip(comma + 1) =~= payload);
    assert(payload_of(s) == Option::Some(payload));
}

/// Re-encode raw bytes as a base64 image payload whose metadata prefix names
/// the given extension. The output parses back: its extension is the given
/// one and its decoded bytes are exactly the input, so the round trip through
/// the codec is loss-less on the bytes.
pub fn encode_image_to_base64(bytes: &Vec<u8>, extension: &str) -> (r: String)
    requires
        wf_extension(extension@),
    ensures
        r@ == data_uri_of(extension@, base64_encoded(bytes@)),
        extension_of(r@) == Some(extension@),
        payload_of(r@) == Some(base64_encoded(bytes@)),
        decoded_bytes_of(r@) == Some(bytes@),
{
    let payload = base64_encode(bytes);
    let mut out = String::from_str("data:image/");
    out.append(extension);
    out.append(";base64,");
    out.append(payload.as_str());
    proof {
        lemma_data_uri_parses(extension@, payload@);
        assert(out@ =~= data_uri_of(extension@, payload@));
    }
    out
}

} // verus!
