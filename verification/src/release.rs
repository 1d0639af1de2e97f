//! The description of a release that GitHub's API returns, read with the
//! `json` crate.

use vstd::prelude::*;
use vstd::string::StringSliceAdditionalSpecFns;

verus! {

/// Declares `json::JsonValue`, a parsed JSON document.
#[verifier::external_type_specification]
#[verifier::external_body]
pub struct ExJsonValue(json::JsonValue);

/// Declares `json::Error`, the error of a text that is not JSON.
#[verifier::external_type_specification]
#[verifier::external_body]
pub struct ExJsonError(json::Error);

/// One step of indexing a JSON document: by a key (`Index<&str>`) or by a
/// position (`Index<usize>`).
pub enum JsonStep {
    Key(Seq<char>),
    Index(int),
}

/// What a parsed document holds, seen through indexing: for every path of
/// steps, what indexing the document step by step along it reaches (a member
/// or element where there is one, otherwise `json`'s null), told by whether
/// that is null and by its `to_string` text. The empty path reaches the
/// document itself. It depends on the document alone.
pub uninterp spec fn json_contents(value: json::JsonValue) -> Map<Seq<JsonStep>, (bool, Seq<char>)>;

/// What `json::parse` makes of a text: the contents (in the sense of
/// `json_contents`) of the document it yields, or nothing when it rejects the
/// text. It depends on the text alone.
pub uninterp spec fn json_parsed(text: Seq<char>) -> Option<Map<Seq<JsonStep>, (bool, Seq<char>)>>;

/// How far `json::parse` can lower a number's decimal exponent: it keeps the
/// exponent in an `i16`, starting from 0 for a number whose integer part is 0.
pub open spec fn max_exponent_drops() -> int {
    32768
}

/// A byte that `json::parse` passes over as whitespace.
pub open spec fn is_json_space(b: u8) -> bool {
    (9 <= b <= 13) || b == 32
}

/// An ASCII digit.
pub open spec fn is_digit_byte(b: u8) -> bool {
    0x30 <= b <= 0x39
}

/// After the first `n` bytes: whether a string is open, and whether the last
/// byte was a backslash inside it.
pub open spec fn lex_state(bytes: Seq<u8>, n: int) -> (bool, bool)
    decreases n,
{
    if n <= 0 {
        (false, false)
    } else {
        let (inside, escaped) = lex_state(bytes, n - 1);
        let b = bytes[n - 1];
        if !inside {
            (b == 0x22, false)
        } else if escaped {
            (true, false)
        } else if b == 0x5c {
            (true, true)
        } else if b == 0x22 {
            (false, false)
        } else {
            (true, false)
        }
    }
}

/// A value may start at byte `i`: the bytes before it, whitespace passed over,
/// end with '[', ',' or ':', or there are none.
pub open spec fn value_may_start(bytes: Seq<u8>, i: int) -> bool
    decreases i,
{
    if i <= 0 {
        true
    } else if is_json_space(bytes[i - 1]) {
        value_may_start(bytes, i - 1)
    } else {
        bytes[i - 1] == 0x5b || bytes[i - 1] == 0x2c || bytes[i - 1] == 0x3a
    }
}

/// At byte `i`, outside any string, a number starts whose integer part is 0
/// ("0" or "-0").
pub open spec fn zero_number_at(bytes: Seq<u8>, i: int) -> bool {
    &&& 0 <= i < bytes.len()
    &&& bytes[i] == 0x30
    &&& !lex_state(bytes, i).0
    &&& (value_may_start(bytes, i) || (i >= 1 && bytes[i - 1] == 0x2d && value_may_start(bytes, i - 1)))
}

/// How often the fraction loop of `json::parse` lowers the exponent over the
/// digits from byte `i` on, with mantissa `num`: for each digit `d`, when
/// `num * 10 + d` fits in a `u64` the mantissa becomes that and the exponent
/// drops by one; otherwise the digit is passed over.
pub open spec fn fraction_drops(bytes: Seq<u8>, i: int, num: int) -> int
    decreases bytes.len() - i,
{
    if i < 0 || i >= bytes.len() || !is_digit_byte(bytes[i]) {
        0
    } else if num * 10 + (bytes[i] - 0x30) <= u64::MAX {
        1 + fraction_drops(bytes, i + 1, num * 10 + (bytes[i] - 0x30))
    } else {
        fraction_drops(bytes, i + 1, num)
    }
}

/// At byte `i` stands a number "0." or "-0." whose fraction lowers the
/// exponent further than an `i16` goes: there `json::parse` overflows.
pub open spec fn overlong_fraction_at(bytes: Seq<u8>, i: int) -> bool {
    &&& zero_number_at(bytes, i)
    &&& i + 1 < bytes.len()
    &&& bytes[i + 1] == 0x2e
    &&& fraction_drops(bytes, i + 2, 0) > max_exponent_drops()
}

/// Somewhere in the text stands a number whose fraction makes `json::parse`
/// overflow its exponent.
pub open spec fn has_overlong_fraction(text: &str) -> bool {
    exists|i: int| overlong_fraction_at(text.spec_bytes(), i)
}

/// The count of `fraction_drops` never falls below 0.
proof fn lemma_fraction_drops_nonnegative(bytes: Seq<u8>, i: int, num: int)
    ensures
        fraction_drops(bytes, i, num) >= 0,
    decreases bytes.len() - i,
{
    if 0 <= i < bytes.len() && is_digit_byte(bytes[i]) {
        lemma_fraction_drops_nonnegative(bytes, i + 1, num * 10 + (bytes[i] - 0x30));
        lemma_fraction_drops_nonnegative(bytes, i + 1, num);
    }
}

/// Whether the fraction from byte `start` on lowers the exponent further than
/// an `i16` goes.
fn drops_too_far(bytes: &[u8], start: usize) -> (r: bool)
    ensures
        r == (fraction_drops(bytes@, start as int, 0) > max_exponent_drops()),
{
    let n = bytes.len();
    let mut num: u64 = 0;
    let mut drops: usize = 0;
    let mut k = start;
    while k < n && drops <= 32768 && 0x30 <= bytes[k] && bytes[k] <= 0x39
        invariant
            n == bytes@.len(),
            start <= k,
            drops <= 32769,
            fraction_drops(bytes@, start as int, 0) == drops + fraction_drops(bytes@, k as int, num as int),
        decreases n - k,
    {
        let d = (bytes[k] - 0x30) as u64;
        match num.checked_mul(10) {
            Some(m) => match m.checked_add(d) {
                Some(next) => {
                    num = next;
                    drops = drops + 1;
                },
                None => {},
            },
            None => {},
        }
        k = k + 1;
    }
    proof {
        lemma_fraction_drops_nonnegative(bytes@, k as int, num as int);
    }
    drops > 32768
}

/// Calls `json::parse`, on a text with no number "0." or "-0." whose fraction
/// lowers the exponent further than an `i16` goes (the parser lowers it,
/// unchecked, for each fraction digit while the mantissa still fits in a
/// `u64`; only a zero integer part leaves room for that many digits). The contract claims that the document's contents are those
/// determined by the text (`json_parsed`), and that the text is rejected
/// exactly when `json_parsed` gives nothing.
#[verifier::external_body]
fn parse_json(text: &str) -> (r: Result<json::JsonValue, json::Error>)
    requires
        !has_overlong_fraction(text),
    ensures
        match r {
            Ok(doc) => json_parsed(text@) == Some(json_contents(doc)),
            Err(_) => json_parsed(text@) is None,
        },
{
    json::parse(text)
}

/// Whether somewhere in the text stands a number whose fraction makes
/// `json::parse` overflow its exponent.
pub fn overlong_fraction(text: &str) -> (r: bool)
    ensures
        r == has_overlong_fraction(text),
{
    let bytes = text.as_bytes();
    let n = bytes.len();
    let mut inside = false;
    let mut escaped = false;
    let mut may_start = true;
    let mut after_minus = false;
    let mut i: usize = 0;
    while i < n
        invariant
            bytes@ == text.spec_bytes(),
            n == bytes@.len(),
            i <= n,
            (inside, escaped) == lex_state(bytes@, i as int),
            may_start == value_may_start(bytes@, i as int),
            after_minus == (i >= 1 && bytes@[i - 1] == 0x2d && value_may_start(bytes@, i - 1)),
            forall|j: int| 0 <= j < i ==> !overlong_fraction_at(bytes@, j),
        decreases n - i,
    {
        let b = bytes[i];
        if b == 0x30 && !inside && (may_start || after_minus) && i + 1 < n && bytes[i + 1] == 0x2e {
            if drops_too_far(bytes, i + 2) {
                assert(overlong_fraction_at(bytes@, i as int));
                return true;
            }
        }
        assert(!overlong_fraction_at(bytes@, i as int));
        after_minus = b == 0x2d && may_start;
        if !((9 <= b && b <= 13) || b == 32) {
            may_start = b == 0x5b || b == 0x2c || b == 0x3a;
        }
        if !inside {
            inside = b == 0x22;
            escaped = false;
        } else if escaped {
            escaped = false;
        } else if b == 0x5c {
            escaped = true;
        } else if b == 0x22 {
            inside = false;
        }
        i = i + 1;
    }
    false
}

/// Indexes a document by a key (`Index<&str>` of `json::JsonValue`): the
/// member of an object, or null. The contract claims that indexing the result
/// along a path reaches what indexing the document along the key and then that
/// path reaches.
#[verifier::external_body]
fn json_member<'a>(value: &'a json::JsonValue, key: &str) -> (r: &'a json::JsonValue)
    ensures
        forall|p: Seq<JsonStep>| #[trigger] json_contents(*r)[p] == json_contents(*value)[seq![
            JsonStep::Key(key@),
        ] + p],
{
    &value[key]
}

/// Indexes a document by a position (`Index<usize>` of `json::JsonValue`): the
/// element of an array, or null. The contract claims that indexing the result
/// along a path reaches what indexing the document along the position and then
/// that path reaches.
#[verifier::external_body]
fn json_element<'a>(value: &'a json::JsonValue, index: usize) -> (r: &'a json::JsonValue)
    ensures
        forall|p: Seq<JsonStep>| #[trigger] json_contents(*r)[p] == json_contents(*value)[seq![
            JsonStep::Index(index as int),
        ] + p],
{
    &value[index]
}

/// Calls `json::JsonValue::is_null`. The contract claims that it tells whether
/// the document itself (the empty path) is null.
#[verifier::external_body]
fn json_is_null(value: &json::JsonValue) -> (r: bool)
    ensures
        r == json_contents(*value)[Seq::<JsonStep>::empty()].0,
{
    value.is_null()
}

/// Calls `to_string` on a document (`Display` of `json::JsonValue`: a string's
/// own text, otherwise its JSON). The contract claims that it is the text of
/// the document itself (the empty path).
#[verifier::external_body]
fn json_text(value: &json::JsonValue) -> (r: String)
    ensures
        r@ == json_contents(*value)[Seq::<JsonStep>::empty()].1,
{
    value.to_string()
}

/// The path from a release to its asset at `index`.
pub open spec fn asset_path(index: int) -> Seq<JsonStep> {
    seq![JsonStep::Key("assets"@), JsonStep::Index(index)]
}

/// The download URL of the asset at `index` of a release whose contents are
/// `contents`: `None` when `assets[index]` is null, otherwise the text of that
/// asset's `browser_download_url` member.
pub open spec fn asset_url_in(contents: Map<Seq<JsonStep>, (bool, Seq<char>)>, index: int) -> Option<Seq<char>> {
    if contents[asset_path(index)].0 {
        None
    } else {
        Some(contents[asset_path(index).push(JsonStep::Key("browser_download_url"@))].1)
    }
}

/// The download URL of the asset at `index` of a release document.
pub open spec fn asset_url_of(release: json::JsonValue, index: int) -> Option<Seq<char>> {
    asset_url_in(json_contents(release), index)
}

/// The download URL of the asset at `index` of the release that the response
/// text describes.
pub open spec fn release_asset_url(text: Seq<char>, index: int) -> Option<Seq<char>> {
    asset_url_in(json_parsed(text)->0, index)
}

/// The assets read from a parsed release are those of the response text: for
/// the document that `parse_release` yields, every asset URL is the one the
/// text describes.
pub proof fn lemma_assets_come_from_text(text: &str, release: json::JsonValue, index: int)
    requires
        json_parsed(text@) == Some(json_contents(release)),
    ensures
        asset_url_of(release, index) == release_asset_url(text@, index),
{
}

/// Why the body of the latest-release request yields no release.
pub enum ReleaseError {
    /// `json::parse` rejected it.
    Malformed(json::Error),
    /// A number in it has a fraction on which `json::parse` overflows.
    OverlongFraction,
}

/// Parses the body of the latest-release request: a text holding a number on
/// whose fraction `json::parse` would overflow its exponent is refused; any
/// other text is the release document that `json::parse` yields, or is
/// rejected by it.
pub fn parse_release(text: &str) -> (r: Result<json::JsonValue, ReleaseError>)
    ensures
        match r {
            Ok(doc) => !has_overlong_fraction(text) && json_parsed(text@) == Some(json_contents(doc)),
            Err(ReleaseError::OverlongFraction) => has_overlong_fraction(text),
            Err(ReleaseError::Malformed(_)) => !has_overlong_fraction(text) && json_parsed(text@) is None,
        },
{
    if overlong_fraction(text) {
        return Err(ReleaseError::OverlongFraction);
    }
    match parse_json(text) {
        Ok(doc) => Ok(doc),
        Err(e) => Err(ReleaseError::Malformed(e)),
    }
}

/// The download URL of the release asset at `index`: the text of its
/// `browser_download_url` member; `None` once `assets[index]` is null, which
/// ends the list of assets.
pub fn asset_download_url(release: &json::JsonValue, index: usize) -> (r: Option<String>)
    ensures
        match r {
            Some(url) => asset_url_of(*release, index as int) == Some(url@),
            None => asset_url_of(*release, index as int) is None,
        },
{
    let assets = json_member(release, "assets");
    let asset = json_element(assets, index);
    let ghost here = Seq::<JsonStep>::empty();
    assert(json_contents(*asset)[here] == json_contents(*assets)[seq![JsonStep::Index(index as int)] + here]);
    assert(json_contents(*assets)[seq![JsonStep::Index(index as int)]] == json_contents(*release)[seq![JsonStep::Key("assets"@)] + seq![JsonStep::Index(index as int)]]);
    assert(seq![JsonStep::Index(index as int)] + here =~= seq![JsonStep::Index(index as int)]);
    assert(seq![JsonStep::Key("assets"@)] + seq![JsonStep::Index(index as int)] =~= asset_path(index as int));
    if json_is_null(asset) {
        None
    } else {
        let url = json_member(asset, "browser_download_url");
        let ghost last = seq![JsonStep::Key("browser_download_url"@)];
        assert(json_contents(*url)[here] == json_contents(*asset)[last + here]);
        assert(last + here =~= last);
        assert(json_contents(*asset)[last] == json_contents(*assets)[seq![JsonStep::Index(index as int)] + last]);
        assert(json_contents(*assets)[seq![JsonStep::Index(index as int)] + last] == json_contents(*release)[seq![JsonStep::Key("assets"@)] + (seq![JsonStep::Index(index as int)] + last)]);
        assert(seq![JsonStep::Key("assets"@)] + (seq![JsonStep::Index(index as int)] + last) =~= asset_path(index as int).push(JsonStep::Key("browser_download_url"@)));
        Some(json_text(url))
    }
}

} // verus!
