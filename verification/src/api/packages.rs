//! The package registry.

use vstd::prelude::*;
use vstd::utf8::*;
use crate::json::{
    get, json_document, parse_json, spec_get, spec_str_member, spec_strings, str_member, strings_of, JsonValue,
};
use crate::protocol::v2::opt_view;
use crate::text::svs;
use crate::text::{
    append_chars, chars_of, cvs, decode_strict, spec_split, spec_strip_prefix, spec_trim,
    spec_trim_char, split_char, starts_with, string_of, strip_prefix, sub_chars, trim, trim_char,
};

verus! {

pub struct PublishPackageQuery {
    /// Package name (can be auto-extracted by adapter if the file is a known format).
    pub name: Option<String>,
    /// Package version (can be auto-extracted by adapter if the file is a known format).
    pub version: Option<String>,
    pub description: Option<String>,
    pub homepage: Option<String>,
    pub repository_url: Option<String>,
    pub semver: Option<String>,
}

pub struct YankRequest {
    pub yank: bool,
}

pub struct PublishResponse {
    pub package_id: i64,
    pub version_id: i64,
    pub existing: bool,
}

pub struct RegistryListResponse {
    pub registries: Vec<RegistryEntry>,
}

pub struct RegistryEntry {
    pub package_type: String,
    pub enabled: bool,
}

pub struct NuGetSearchParams {
    pub q: Option<String>,
    pub skip: Option<usize>,
    pub take: Option<usize>,
}

pub struct RubyGemsDepsParams {
    pub gems: Option<String>,
}

/// The value of a hexadecimal digit byte.
pub open spec fn spec_hex_val(b: u8) -> Option<u8> {
    if 0x30 <= b <= 0x39 {
        Some((b - 0x30) as u8)
    } else if 0x41 <= b <= 0x46 {
        Some((b - 0x41 + 10) as u8)
    } else if 0x61 <= b <= 0x66 {
        Some((b - 0x61 + 10) as u8)
    } else {
        None
    }
}

/// The value of a hexadecimal digit byte, or `Err` for any other byte.
pub fn hex_val(b: u8) -> (r: Result<u8, ()>)
    ensures
        match r {
            Ok(v) => spec_hex_val(b) == Some(v),
            Err(_) => spec_hex_val(b) is None,
        },
{
    if 0x30 <= b && b <= 0x39 {
        Ok(b - 0x30)
    } else if 0x41 <= b && b <= 0x46 {
        Ok(b - 0x41 + 10)
    } else if 0x61 <= b && b <= 0x66 {
        Ok(b - 0x61 + 10)
    } else {
        Err(())
    }
}

/// `a` before the sequence, if there is one.
pub open spec fn prepend_bytes(a: Seq<u8>, r: Option<Seq<u8>>) -> Option<Seq<u8>> {
    match r {
        Some(t) => Some(a + t),
        None => None,
    }
}

/// The bytes that percent-encoded bytes stand for: `%` and two hexadecimal
/// digits for a byte, any other byte for itself. `None` when a `%` is not
/// followed by two hexadecimal digits.
pub open spec fn percent_bytes(s: Seq<u8>) -> Option<Seq<u8>>
    decreases s.len(),
{
    if s.len() == 0 {
        Some(Seq::empty())
    } else if s[0] == 0x25 {
        if s.len() < 3 {
            None
        } else {
            match (spec_hex_val(s[1]), spec_hex_val(s[2])) {
                (Some(hi), Some(lo)) => prepend_bytes(seq![(hi * 16 + lo) as u8], percent_bytes(s.skip(3))),
                _ => None,
            }
        }
    } else {
        prepend_bytes(seq![s[0]], percent_bytes(s.skip(1)))
    }
}

/// The text that a percent-encoded text stands for, when the decoded bytes
/// are well-formed UTF-8.
pub open spec fn spec_percent_decode(s: Seq<char>) -> Option<Seq<char>> {
    match percent_bytes(encode_utf8(s)) {
        Some(b) => if valid_utf8(b) {
            Some(decode_utf8(b))
        } else {
            None
        },
        None => None,
    }
}

proof fn lemma_prepend_bytes(a: Seq<u8>, b: Seq<u8>, r: Option<Seq<u8>>)
    ensures
        prepend_bytes(a, prepend_bytes(b, r)) == prepend_bytes(a + b, r),
{
    match r {
        Some(t) => {
            assert(a + (b + t) =~= (a + b) + t);
        },
        None => {},
    }
}

/// Decode percent-encoding (`%XX`) into text; `Err` on a malformed escape or
/// bytes that are not UTF-8.
pub fn percent_decode(s: &str) -> (r: Result<String, ()>)
    ensures
        match r {
            Ok(t) => spec_percent_decode(s@) == Some(t@),
            Err(_) => spec_percent_decode(s@) is None,
        },
{
    let bytes = s.as_bytes();
    let ghost bs = bytes@;
    let mut out: Vec<u8> = Vec::new();
    let mut i: usize = 0;
    assert(bs.skip(0) =~= bs);
    assert(Seq::<u8>::empty() + Seq::<u8>::empty() =~= Seq::<u8>::empty());
    proof {
        lemma_prepend_bytes(Seq::empty(), Seq::empty(), percent_bytes(bs));
        match percent_bytes(bs) {
            Some(t) => {
                assert(Seq::<u8>::empty() + t =~= t);
            },
            None => {},
        }
    }
    while i < bytes.len()
        invariant
            i <= bs.len(),
            bs == bytes@,
            bs == encode_utf8(s@),
            percent_bytes(bs) == prepend_bytes(out@, percent_bytes(bs.skip(i as int))),
        decreases bs.len() - i,
    {
        let b = bytes[i];
        let ghost rest = bs.skip(i as int);
        assert(rest[0] == b);
        if b == 0x25 {
            if bytes.len() - i < 3 {
                assert(rest.len() < 3);
                assert(percent_bytes(rest) is None);
                return Err(());
            }
            let hi = match hex_val(bytes[i + 1]) {
                Ok(v) => v,
                Err(_) => {
                    assert(rest[1] == bytes@[i + 1]);
                    assert(percent_bytes(rest) is None);
                    return Err(());
                },
            };
            let lo = match hex_val(bytes[i + 2]) {
                Ok(v) => v,
                Err(_) => {
                    assert(rest[2] == bytes@[i + 2]);
                    assert(percent_bytes(rest) is None);
                    return Err(());
                },
            };
            assert(rest[1] == bytes@[i + 1] && rest[2] == bytes@[i + 2]);
            let v: u8 = hi * 16 + lo;
            assert(rest.skip(3) =~= bs.skip(i + 3));
            proof {
                lemma_prepend_bytes(out@, seq![v], percent_bytes(bs.skip(i + 3)));
            }
            let ghost before = out@;
            out.push(v);
            assert(out@ =~= before + seq![v]);
            i = i + 3;
        } else {
            assert(rest.skip(1) =~= bs.skip(i + 1));
            proof {
                lemma_prepend_bytes(out@, seq![b], percent_bytes(bs.skip(i + 1)));
            }
            let ghost before = out@;
            out.push(b);
            assert(out@ =~= before + seq![b]);
            i = i + 1;
        }
    }
    assert(bs.skip(i as int) =~= Seq::<u8>::empty());
    assert(out@ + Seq::<u8>::empty() =~= out@);
    match decode_strict(out) {
        Some(t) => Ok(t),
        None => Err(()),
    }
}

/// `k` is where the first `''` of `s` starts.
pub open spec fn is_first_quote_pair(s: Seq<char>, k: int) -> bool {
    &&& 0 <= k && k + 1 < s.len()
    &&& s[k] == '\'' && s[k + 1] == '\''
    &&& forall|j: int| 0 <= j < k ==> !(#[trigger] s[j] == '\'' && s[j + 1] == '\'')
}

/// The value of an RFC 5987 `filename*=` parameter (`<charset>'<lang>'<text>`):
/// the percent-decoded text after the first `''`.
pub open spec fn extended_filename(v: Seq<char>) -> Option<Seq<char>> {
    if exists|k: int| is_first_quote_pair(v, k) {
        let k = choose|k: int| is_first_quote_pair(v, k);
        spec_percent_decode(v.skip(k + 2))
    } else {
        None
    }
}

/// The file name of the first part that gives one: `filename=` (quotes
/// removed), or a `filename*=` whose value decodes.
pub open spec fn first_package_filename(parts: Seq<Seq<char>>) -> Option<Seq<char>>
    decreases parts.len(),
{
    if parts.len() == 0 {
        None
    } else {
        let part = spec_trim(parts[0]);
        match spec_strip_prefix(part, "filename="@) {
            Some(v) => Some(spec_trim_char(v, '"')),
            None => match spec_strip_prefix(part, "filename*="@) {
                Some(v) => match extended_filename(v) {
                    Some(d) => Some(d),
                    None => first_package_filename(parts.drop_first()),
                },
                None => first_package_filename(parts.drop_first()),
            },
        }
    }
}

/// The decoded value of a `filename*=` parameter, if it has one.
fn decode_extended_filename(v: &[char]) -> (r: Option<String>)
    ensures
        match r {
            Some(d) => extended_filename(v@) == Some(d@),
            None => extended_filename(v@) is None,
        },
{
    let mut k: usize = 0;
    while k < v.len() && v.len() - k >= 2
        invariant
            k <= v@.len(),
            forall|j: int| 0 <= j < k ==> !(#[trigger] v@[j] == '\'' && v@[j + 1] == '\''),
        decreases v@.len() - k,
    {
        if v[k] == '\'' && v[k + 1] == '\'' {
            proof {
                assert(is_first_quote_pair(v@, k as int));
                let c = choose|c: int| is_first_quote_pair(v@, c);
                if c < k {
                    assert(v@[c] == '\'' && v@[c + 1] == '\'');
                } else if c > k {
                    assert(v@[k as int] == '\'' && v@[k + 1] == '\'');
                }
            }
            let encoded = string_of(sub_chars(v, k + 2, v.len()).as_slice());
            assert(encoded@ =~= v@.skip(k + 2));
            return match percent_decode(encoded.as_str()) {
                Ok(d) => Some(d),
                Err(_) => None,
            };
        }
        k = k + 1;
    }
    proof {
        if exists|c: int| is_first_quote_pair(v@, c) {
            let c = choose|c: int| is_first_quote_pair(v@, c);
            assert(v@[c] == '\'' && v@[c + 1] == '\'');
        }
    }
    None
}

/// The file name a Content-Disposition header gives: the first `filename=`
/// value (quotes removed) or decodable `filename*=` value.
pub fn parse_filename_from_disposition(disposition: &str) -> (r: Option<String>)
    ensures
        match r {
            Some(f) => first_package_filename(spec_split(disposition@, ';')) == Some(f@),
            None => first_package_filename(spec_split(disposition@, ';')) is None,
        },
{
    let parts = split_char(chars_of(disposition).as_slice(), ';');
    let ghost ps = cvs(parts@);
    let plain = chars_of("filename=");
    let extended = chars_of("filename*=");
    let mut i: usize = 0;
    assert(ps.skip(0) =~= ps);
    while i < parts.len()
        invariant
            i <= parts@.len(),
            ps == cvs(parts@),
            ps == spec_split(disposition@, ';'),
            plain@ == "filename="@,
            extended@ == "filename*="@,
            first_package_filename(ps) == first_package_filename(ps.skip(i as int)),
        decreases parts@.len() - i,
    {
        assert(ps.skip(i as int)[0] == parts@[i as int]@);
        assert(ps.skip(i as int).drop_first() =~= ps.skip(i + 1));
        let part = trim(parts[i].as_slice());
        match strip_prefix(part.as_slice(), plain.as_slice()) {
            Some(v) => {
                return Some(string_of(trim_char(v.as_slice(), '"').as_slice()));
            },
            None => {},
        }
        match strip_prefix(part.as_slice(), extended.as_slice()) {
            Some(v) => {
                match decode_extended_filename(v.as_slice()) {
                    Some(d) => {
                        return Some(d);
                    },
                    None => {},
                }
            },
            None => {},
        }
        i = i + 1;
    }
    None
}

/// The XML escape of one character.
pub open spec fn xml_escape_char(c: char) -> Seq<char> {
    if c == '&' {
        "&amp;"@
    } else if c == '<' {
        "&lt;"@
    } else if c == '>' {
        "&gt;"@
    } else if c == '"' {
        "&quot;"@
    } else if c == '\'' {
        "&apos;"@
    } else {
        seq![c]
    }
}

/// Text with `&`, `<`, `>`, `"` and `'` replaced by their XML entities.
pub open spec fn spec_escape_xml(s: Seq<char>) -> Seq<char>
    decreases s.len(),
{
    if s.len() == 0 {
        Seq::empty()
    } else {
        spec_escape_xml(s.drop_last()) + xml_escape_char(s.last())
    }
}

/// Escape text for XML.
pub fn escape_xml(s: &str) -> (r: String)
    ensures
        r@ == spec_escape_xml(s@),
{
    let cs = chars_of(s);
    let mut out: Vec<char> = Vec::new();
    let mut i: usize = 0;
    assert(cs@.take(0) =~= Seq::<char>::empty());
    while i < cs.len()
        invariant
            i <= cs@.len(),
            cs@ == s@,
            out@ == spec_escape_xml(cs@.take(i as int)),
        decreases cs@.len() - i,
    {
        let c = cs[i];
        assert(cs@.take(i + 1).drop_last() =~= cs@.take(i as int));
        let e = if c == '&' {
            chars_of("&amp;")
        } else if c == '<' {
            chars_of("&lt;")
        } else if c == '>' {
            chars_of("&gt;")
        } else if c == '"' {
            chars_of("&quot;")
        } else if c == '\'' {
            chars_of("&apos;")
        } else {
            let mut one: Vec<char> = Vec::new();
            one.push(c);
            assert(one@ =~= seq![c]);
            one
        };
        append_chars(&mut out, e.as_slice());
        i = i + 1;
    }
    assert(cs@.take(cs@.len() as int) =~= cs@);
    string_of(out.as_slice())
}

/// The base URL of the registry as the client addressed it: `http` for a
/// `localhost` or `127.` host and `https` otherwise, or `http://localhost`
/// without a Host header.
pub open spec fn spec_build_base_url(host: Option<Seq<char>>) -> Seq<char> {
    match host {
        Some(h) => if "localhost"@.is_prefix_of(h) || "127."@.is_prefix_of(h) {
            "http://"@ + h
        } else {
            "https://"@ + h
        },
        None => "http://localhost"@,
    }
}

/// Build the registry's base URL from the Host header's text, if any.
pub fn build_base_url(host: Option<&str>) -> (r: String)
    ensures
        r@ == spec_build_base_url(
            match host {
                Some(h) => Some(h@),
                None => None,
            },
        ),
{
    match host {
        Some(h) => {
            let hc = chars_of(h);
            let local = starts_with(hc.as_slice(), chars_of("localhost").as_slice())
                || starts_with(hc.as_slice(), chars_of("127.").as_slice());
            let mut out = if local {
                chars_of("http://")
            } else {
                chars_of("https://")
            };
            append_chars(&mut out, hc.as_slice());
            string_of(out.as_slice())
        },
        None => String::from_str("http://localhost"),
    }
}

/// Escaped text holds none of `<`, `>`, `"` and `'`: the characters that
/// could end an attribute or start a tag.
pub proof fn lemma_escaped_xml_is_inert(s: Seq<char>)
    ensures
        forall|i: int|
            0 <= i < spec_escape_xml(s).len() ==> {
                let c = #[trigger] spec_escape_xml(s)[i];
                c != '<' && c != '>' && c != '"' && c != '\''
            },
    decreases s.len(),
{
    reveal_strlit("&amp;");
    reveal_strlit("&lt;");
    reveal_strlit("&gt;");
    reveal_strlit("&quot;");
    reveal_strlit("&apos;");
    if s.len() > 0 {
        lemma_escaped_xml_is_inert(s.drop_last());
        let init = spec_escape_xml(s.drop_last());
        let e = xml_escape_char(s.last());
        assert forall|i: int| 0 <= i < (init + e).len() implies {
            let c = #[trigger] (init + e)[i];
            c != '<' && c != '>' && c != '"' && c != '\''
        } by {
            if i >= init.len() {
                assert((init + e)[i] == e[i - init.len()]);
            }
        }
    }
}

/// Bytes without `%` decode to themselves.
pub proof fn lemma_percent_bytes_plain(b: Seq<u8>)
    requires
        !b.contains(0x25u8),
    ensures
        percent_bytes(b) == Some(b),
    decreases b.len(),
{
    if b.len() > 0 {
        assert(b[0] != 0x25u8);
        assert(!b.skip(1).contains(0x25u8)) by {
            if b.skip(1).contains(0x25u8) {
                let k = choose|k: int| 0 <= k < b.skip(1).len() && b.skip(1)[k] == 0x25u8;
                assert(b[k + 1] == 0x25u8);
            }
        }
        lemma_percent_bytes_plain(b.skip(1));
        assert(seq![b[0]] + b.skip(1) =~= b);
    }
}

// ── Package metadata documents ───────────────────────────────────────────

/// The value of a document if one is present and parsed.
pub open spec fn doc_of(metadata_json: Option<&str>) -> Option<JsonValue> {
    match metadata_json {
        Some(t) => json_document(t@),
        None => None,
    }
}

fn parse_doc(metadata_json: Option<&str>) -> (r: Option<JsonValue>)
    ensures
        r == doc_of(metadata_json),
{
    match metadata_json {
        Some(t) => parse_json(t),
        None => None,
    }
}

/// The string items of the array member `key`, none when it is no array.
pub open spec fn spec_string_items(doc: JsonValue, key: Seq<char>) -> Option<Seq<Seq<char>>> {
    match spec_get(doc, key) {
        Some(JsonValue::Array(items)) => Some(spec_strings(items@)),
        _ => None,
    }
}

fn string_items(doc: &JsonValue, key: &str) -> (r: Option<Vec<String>>)
    ensures
        match r {
            Some(v) => spec_string_items(*doc, key@) == Some(svs(v@)),
            None => spec_string_items(*doc, key@) is None,
        },
{
    match get(doc, key) {
        Some(JsonValue::Array(items)) => Some(strings_of(items)),
        _ => None,
    }
}

/// A Helm chart's app version, API version and keywords.
pub open spec fn spec_helm_metadata(doc: Option<JsonValue>) -> (Option<Seq<char>>, Option<Seq<char>>, Seq<Seq<char>>) {
    match doc {
        Some(d) => (
            spec_str_member(d, "appVersion"@),
            spec_str_member(d, "apiVersion"@),
            match spec_string_items(d, "keywords"@) {
                Some(k) => k,
                None => Seq::empty(),
            },
        ),
        None => (None, None, Seq::empty()),
    }
}

/// Read a Helm chart's metadata document.
pub fn helm_metadata_of(doc: &Option<JsonValue>) -> (r: (Option<String>, Option<String>, Vec<String>))
    ensures
        (opt_view(r.0), opt_view(r.1), svs(r.2@)) == spec_helm_metadata(*doc),
{
    match doc {
        Some(d) => (
            str_member(d, "appVersion"),
            str_member(d, "apiVersion"),
            match string_items(d, "keywords") {
                Some(k) => k,
                None => Vec::new(),
            },
        ),
        None => (None, None, Vec::new()),
    }
}

/// The metadata of a Helm chart version stored as JSON: nothing when there
/// is none or it is not JSON.
pub fn parse_helm_metadata(metadata_json: Option<&str>) -> (r: (Option<String>, Option<String>, Vec<String>))
    ensures
        (opt_view(r.0), opt_view(r.1), svs(r.2@)) == spec_helm_metadata(doc_of(metadata_json)),
{
    helm_metadata_of(&parse_doc(metadata_json))
}

/// The first of two alternatives that is present.
pub open spec fn or_else(a: Option<Seq<char>>, b: Option<Seq<char>>) -> Option<Seq<char>> {
    match a {
        Some(x) => Some(x),
        None => b,
    }
}

/// A NuGet package's description, homepage (`projectUrl`, else
/// `homepage`), license (`licenseUrl`, else `license`) and tags.
pub open spec fn spec_nuget_metadata(doc: Option<JsonValue>) -> (Option<Seq<char>>, Option<Seq<char>>, Option<Seq<char>>, Option<Seq<char>>) {
    match doc {
        Some(d) => (
            spec_str_member(d, "description"@),
            or_else(spec_str_member(d, "projectUrl"@), spec_str_member(d, "homepage"@)),
            or_else(spec_str_member(d, "licenseUrl"@), spec_str_member(d, "license"@)),
            spec_str_member(d, "tags"@),
        ),
        None => (None, None, None, None),
    }
}

fn first_member(d: &JsonValue, first: &str, second: &str) -> (r: Option<String>)
    ensures
        opt_view(r) == or_else(spec_str_member(*d, first@), spec_str_member(*d, second@)),
{
    match str_member(d, first) {
        Some(v) => Some(v),
        None => str_member(d, second),
    }
}

/// Read a NuGet package's metadata document.
pub fn nuget_metadata_of(doc: &Option<JsonValue>) -> (r: (Option<String>, Option<String>, Option<String>, Option<String>))
    ensures
        (opt_view(r.0), opt_view(r.1), opt_view(r.2), opt_view(r.3)) == spec_nuget_metadata(*doc),
{
    match doc {
        Some(d) => (
            str_member(d, "description"),
            first_member(d, "projectUrl", "homepage"),
            first_member(d, "licenseUrl", "license"),
            str_member(d, "tags"),
        ),
        None => (None, None, None, None),
    }
}

/// The metadata of a NuGet package version stored as JSON.
pub fn parse_nuget_metadata(metadata_json: Option<&str>) -> (r: (Option<String>, Option<String>, Option<String>, Option<String>))
    ensures
        (opt_view(r.0), opt_view(r.1), opt_view(r.2), opt_view(r.3)) == spec_nuget_metadata(doc_of(metadata_json)),
{
    nuget_metadata_of(&parse_doc(metadata_json))
}

/// A dependency of a RubyGems version: the gem and its version
/// requirements.
pub struct RubyGemsDep {
    pub name: String,
    pub requirements: String,
}

/// The dependencies listed by the `dependencies` array: each item with a
/// string `name`, with its `requirements` (`>= 0` when not a string).
pub open spec fn spec_rubygems_deps(items: Seq<JsonValue>) -> Seq<(Seq<char>, Seq<char>)>
    decreases items.len(),
{
    if items.len() == 0 {
        Seq::empty()
    } else {
        let rest = spec_rubygems_deps(items.drop_last());
        match spec_str_member(items.last(), "name"@) {
            Some(n) => rest.push(
                (
                    n,
                    match spec_str_member(items.last(), "requirements"@) {
                        Some(r) => r,
                        None => ">= 0"@,
                    },
                ),
            ),
            None => rest,
        }
    }
}

/// The dependencies a RubyGems metadata document lists.
pub open spec fn spec_rubygems_doc_deps(doc: Option<JsonValue>) -> Seq<(Seq<char>, Seq<char>)> {
    match doc {
        Some(d) => match spec_get(d, "dependencies"@) {
            Some(JsonValue::Array(items)) => spec_rubygems_deps(items@),
            _ => Seq::empty(),
        },
        None => Seq::empty(),
    }
}

/// The views of dependencies.
pub open spec fn deps_view(deps: Seq<RubyGemsDep>) -> Seq<(Seq<char>, Seq<char>)> {
    deps.map_values(|d: RubyGemsDep| (d.name@, d.requirements@))
}

/// Read the dependencies of a RubyGems metadata document.
pub fn rubygems_deps_of(doc: &Option<JsonValue>) -> (r: Vec<RubyGemsDep>)
    ensures
        deps_view(r@) == spec_rubygems_doc_deps(*doc),
{
    let items = match doc {
        Some(d) => match get(d, "dependencies") {
            Some(JsonValue::Array(items)) => items,
            _ => return Vec::new(),
        },
        None => return Vec::new(),
    };
    let mut deps: Vec<RubyGemsDep> = Vec::new();
    let mut i: usize = 0;
    while i < items.len()
        invariant
            i <= items@.len(),
            deps_view(deps@) == spec_rubygems_deps(items@.take(i as int)),
        decreases items@.len() - i,
    {
        assert(items@.take(i + 1).drop_last() =~= items@.take(i as int));
        let item = &items[i];
        match str_member(item, "name") {
            Some(name) => {
                let requirements = match str_member(item, "requirements") {
                    Some(r) => r,
                    None => String::from_str(">= 0"),
                };
                deps.push(RubyGemsDep { name, requirements });
            },
            None => {},
        }
        assert(deps_view(deps@) =~= spec_rubygems_deps(items@.take(i + 1)));
        i = i + 1;
    }
    assert(items@.take(items@.len() as int) =~= items@);
    deps
}

/// The dependencies of a RubyGems version stored as JSON.
pub fn parse_rubygems_deps(metadata_json: Option<&str>) -> (r: Vec<RubyGemsDep>)
    ensures
        deps_view(r@) == spec_rubygems_doc_deps(doc_of(metadata_json)),
{
    rubygems_deps_of(&parse_doc(metadata_json))
}

/// Texts joined with a separator between each two.
pub open spec fn spec_join(parts: Seq<Seq<char>>, sep: Seq<char>) -> Seq<char>
    decreases parts.len(),
{
    if parts.len() == 0 {
        Seq::empty()
    } else if parts.len() == 1 {
        parts[0]
    } else {
        spec_join(parts.drop_last(), sep) + sep + parts.last()
    }
}

fn join(parts: &Vec<String>, sep: &str) -> (r: String)
    ensures
        r@ == spec_join(svs(parts@), sep@),
{
    let mut out: Vec<char> = Vec::new();
    let mut i: usize = 0;
    while i < parts.len()
        invariant
            i <= parts@.len(),
            out@ == spec_join(svs(parts@).take(i as int), sep@),
        decreases parts@.len() - i,
    {
        assert(svs(parts@).take(i + 1).drop_last() =~= svs(parts@).take(i as int));
        if i > 0 {
            append_chars(&mut out, chars_of(sep).as_slice());
        }
        append_chars(&mut out, crate::text::string_chars(&parts[i]).as_slice());
        proof {
            let t = svs(parts@).take(i + 1);
            assert(t.last() == parts@[i as int]@);
            if i == 0 {
                assert(out@ =~= t[0]);
            } else {
                assert(out@ =~= spec_join(t.drop_last(), sep@) + sep@ + t.last());
            }
        }
        i = i + 1;
    }
    assert(svs(parts@).take(parts@.len() as int) =~= svs(parts@));
    string_of(out.as_slice())
}

/// A RubyGems version's summary, description, homepage and license (the
/// `licenses` array joined with `, `, else the `license` string).
pub open spec fn spec_rubygems_info(doc: Option<JsonValue>) -> (Option<Seq<char>>, Option<Seq<char>>, Option<Seq<char>>, Option<Seq<char>>) {
    match doc {
        Some(d) => (
            spec_str_member(d, "summary"@),
            spec_str_member(d, "description"@),
            spec_str_member(d, "homepage"@),
            match spec_string_items(d, "licenses"@) {
                Some(ls) => Some(spec_join(ls, ", "@)),
                None => spec_str_member(d, "license"@),
            },
        ),
        None => (None, None, None, None),
    }
}

/// Read a RubyGems version's metadata document.
pub fn rubygems_info_of(doc: &Option<JsonValue>) -> (r: (Option<String>, Option<String>, Option<String>, Option<String>))
    ensures
        (opt_view(r.0), opt_view(r.1), opt_view(r.2), opt_view(r.3)) == spec_rubygems_info(*doc),
{
    match doc {
        Some(d) => (
            str_member(d, "summary"),
            str_member(d, "description"),
            str_member(d, "homepage"),
            match string_items(d, "licenses") {
                Some(ls) => Some(join(&ls, ", ")),
                None => str_member(d, "license"),
            },
        ),
        None => (None, None, None, None),
    }
}

/// The information of a RubyGems version stored as JSON.
pub fn parse_rubygems_info(metadata_json: Option<&str>) -> (r: (Option<String>, Option<String>, Option<String>, Option<String>))
    ensures
        (opt_view(r.0), opt_view(r.1), opt_view(r.2), opt_view(r.3)) == spec_rubygems_info(doc_of(metadata_json)),
{
    rubygems_info_of(&parse_doc(metadata_json))
}

} // verus!
