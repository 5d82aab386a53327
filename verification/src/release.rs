//! Releases, their assets, and asset selection: the first asset in listing
//! order whose name matches the platform pattern.

use vstd::prelude::*;
use crate::error::{Error, ErrorV};
use crate::version::{parse_spec, Version};

verus! {

/// One downloadable artifact of a release.
#[derive(Debug)]
pub struct Asset {
    pub name: String,
    pub url: String,
}

/// The mathematical value of an `Asset`.
#[verifier::ext_equal]
pub struct AssetV {
    pub name: Seq<char>,
    pub url: Seq<char>,
}

impl View for Asset {
    type V = AssetV;

    open spec fn view(&self) -> AssetV {
        AssetV { name: self.name@, url: self.url@ }
    }
}

impl Clone for Asset {
    fn clone(&self) -> (res: Self)
        ensures
            res@ == self@,
    {
        let res = Asset { name: self.name.clone(), url: self.url.clone() };
        proof {
            assert(res@ =~= self@);
        }
        res
    }
}

/// A tagged, named publication of a package upstream, bearing zero or more
/// downloadable assets. `tag` is the canonical version token, already
/// normalized at the provider boundary.
#[derive(Debug)]
pub struct Release {
    pub name: String,
    pub tag: String,
    pub prerelease: bool,
    pub assets: Vec<Asset>,
}

/// The views of a release's assets, in listing order.
pub open spec fn assets_view(assets: Seq<Asset>) -> Seq<AssetV> {
    assets.map_values(|a: Asset| a@)
}

impl Release {
    /// The version denoted by the release's canonical tag. Parsing never
    /// fails, so this always succeeds.
    pub fn try_get_version(&self) -> (r: Result<Version, Error>)
        ensures
            r matches Ok(v) && v@ == parse_spec(self.tag@),
    {
        Ok(Version::parse(self.tag.as_str()))
    }
}

/// Whether the pattern compiles as a regular expression. Names the outcome
/// of `regex::Regex::new`, which depends on the pattern alone.
pub uninterp spec fn regex_valid(pattern: Seq<char>) -> bool;

/// Whether the pattern matches somewhere in the text. Names the outcome of
/// `regex::Regex::is_match`, which depends on the pattern and the text
/// alone.
pub uninterp spec fn regex_matches(pattern: Seq<char>, text: Seq<char>) -> bool;

/// Relies on `regex::Regex::new`: compiling a given pattern succeeds or
/// fails deterministically. The error string is regex's own rendering of
/// the compilation failure.
#[verifier::external_body]
fn regex_check(pattern: &str) -> (r: Result<(), String>)
    ensures
        r is Ok <==> regex_valid(pattern@),
{
    match regex::Regex::new(pattern) {
        Ok(_) => Ok(()),
        Err(e) => Err(e.to_string()),
    }
}

/// Relies on `regex::Regex::new` and `regex::Regex::is_match`: whether a
/// match exists somewhere in the text is a function of the pattern and the
/// text.
#[verifier::external_body]
fn regex_match_text(pattern: &str, text: &str) -> (r: Result<bool, String>)
    ensures
        r is Ok <==> regex_valid(pattern@),
        r matches Ok(b) ==> b == regex_matches(pattern@, text@),
{
    match regex::Regex::new(pattern) {
        Ok(re) => Ok(re.is_match(text)),
        Err(e) => Err(e.to_string()),
    }
}

/// Some asset name in the list matches the pattern.
pub open spec fn has_asset_match(assets: Seq<AssetV>, pattern: Seq<char>) -> bool {
    exists|i: int| 0 <= i < assets.len() && regex_matches(pattern, #[trigger] assets[i].name)
}

/// `i` is the first position whose asset name matches the pattern.
pub open spec fn is_first_match(assets: Seq<AssetV>, pattern: Seq<char>, i: int) -> bool {
    &&& 0 <= i < assets.len()
    &&& regex_matches(pattern, assets[i].name)
    &&& forall|j: int| 0 <= j < i ==> !regex_matches(pattern, #[trigger] assets[j].name)
}

/// The first position whose asset name matches the pattern.
pub open spec fn first_match_index(assets: Seq<AssetV>, pattern: Seq<char>) -> int {
    choose|i: int| is_first_match(assets, pattern, i)
}

/// Two first matches are the same match.
pub proof fn lemma_first_match_unique(assets: Seq<AssetV>, pattern: Seq<char>, i: int, j: int)
    requires
        is_first_match(assets, pattern, i),
        is_first_match(assets, pattern, j),
    ensures
        i == j,
{
}

/// Selects the first asset of the release whose name matches the pattern:
/// `MissingSystemAsset` when none does, `External` when the pattern is not
/// a valid regular expression. Selection is a function of the asset list
/// and the pattern, so repeated calls return the same asset.
pub fn select_asset(release: &Release, pattern: &str) -> (r: Result<Asset, Error>)
    ensures
        ({
            let av = assets_view(release.assets@);
            match r {
                Ok(a) => regex_valid(pattern@) && is_first_match(av, pattern@, first_match_index(av, pattern@))
                    && a@ == av[first_match_index(av, pattern@)],
                Err(e) => if !regex_valid(pattern@) {
                    e@ is External
                } else {
                    !has_asset_match(av, pattern@) && e@ == ErrorV::MissingSystemAsset
                },
            }
        }),
{
    if let Err(msg) = regex_check(pattern) {
        let mut s = "invalid regex: ".to_owned();
        s.append(msg.as_str());
        return Err(Error::External(s));
    }
    let ghost av = assets_view(release.assets@);
    let n = release.assets.len();
    let mut i: usize = 0;
    while i < n
        invariant
            av == assets_view(release.assets@),
            n == release.assets.len(),
            i <= n,
            regex_valid(pattern@),
            forall|j: int| 0 <= j < i ==> !regex_matches(pattern@, #[trigger] av[j].name),
        decreases n - i,
    {
        match regex_match_text(pattern, release.assets[i].name.as_str()) {
            Ok(m) => {
                if m {
                    proof {
                        assert(av[i as int].name == release.assets@[i as int].name@);
                        assert(is_first_match(av, pattern@, i as int));
                        lemma_first_match_unique(
                            av,
                            pattern@,
                            first_match_index(av, pattern@),
                            i as int,
                        );
                    }
                    return Ok(release.assets[i].clone());
                }
                proof {
                    assert(av[i as int].name == release.assets@[i as int].name@);
                }
            },
            Err(msg) => {
                proof {
                    assert(false);
                }
                return Err(Error::External(msg));
            },
        }
        i = i + 1;
    }
    proof {
        if has_asset_match(av, pattern@) {
            let k = choose|k: int|
                0 <= k < av.len() && regex_matches(pattern@, #[trigger] av[k].name);
        }
    }
    Err(Error::MissingSystemAsset)
}

} // verus!
