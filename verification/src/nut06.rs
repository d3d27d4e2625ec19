//! Mint information: the identity, version, contact and capability data a
//! mint advertises to wallets, and the builder for the per-operation
//! settings block.

use vstd::prelude::*;

use crate::nut01::PublicKey;
use crate::nut04;
use crate::nut05;

verus! {

/// Number of `'/'` characters at or after index `i`.
pub open spec fn slash_count_from(s: Seq<char>, i: int) -> nat
    decreases s.len() - i,
{
    if i < 0 || i >= s.len() {
        0
    } else {
        (if s[i] == '/' {
            1nat
        } else {
            0nat
        }) + slash_count_from(s, i + 1)
    }
}

/// Number of `'/'` characters in the string.
pub open spec fn slash_count(s: Seq<char>) -> nat {
    slash_count_from(s, 0)
}

/// Index of the first `'/'` at or after `i`, or the length if there is none.
pub open spec fn first_slash_from(s: Seq<char>, i: int) -> int
    decreases s.len() - i,
{
    if i < 0 || i >= s.len() {
        s.len() as int
    } else if s[i] == '/' {
        i
    } else {
        first_slash_from(s, i + 1)
    }
}

/// Index of the first `'/'` in the string, or the length if there is none.
pub open spec fn first_slash(s: Seq<char>) -> int {
    first_slash_from(s, 0)
}

/// When slashes remain, the first one is a real, earliest occurrence.
pub proof fn lemma_first_slash_found(s: Seq<char>, i: int)
    requires
        0 <= i <= s.len(),
        slash_count_from(s, i) != 0,
    ensures
        i <= first_slash_from(s, i) < s.len(),
        s[first_slash_from(s, i)] == '/',
        forall|k: int| i <= k < first_slash_from(s, i) ==> s[k] != '/',
    decreases s.len() - i,
{
    if s[i] != '/' {
        lemma_first_slash_found(s, i + 1);
    }
}

/// A string without slashes has none at any position.
pub proof fn lemma_no_slash(s: Seq<char>, i: int)
    requires
        0 <= i <= s.len(),
        slash_count_from(s, i) == 0,
    ensures
        forall|k: int| i <= k < s.len() ==> s[k] != '/',
    decreases s.len() - i,
{
    if i < s.len() {
        lemma_no_slash(s, i + 1);
    }
}

/// The first slash at or after `i` is the earliest occurrence at or after `i`.
pub proof fn lemma_first_slash_at(s: Seq<char>, i: int, p: int)
    requires
        0 <= i <= p < s.len(),
        forall|k: int| i <= k < p ==> s[k] != '/',
        s[p] == '/',
    ensures
        first_slash_from(s, i) == p,
    decreases p - i,
{
    if i < p {
        lemma_first_slash_at(s, i + 1, p);
    }
}

/// Slash counting starts over at the seam of a concatenation.
pub proof fn lemma_slash_count_shift(s1: Seq<char>, s2: Seq<char>, j: int)
    requires
        0 <= j <= s2.len(),
    ensures
        slash_count_from(s1 + s2, s1.len() + j) == slash_count_from(s2, j),
    decreases s2.len() - j,
{
    if j < s2.len() {
        assert((s1 + s2)[s1.len() + j] == s2[j]);
        lemma_slash_count_shift(s1, s2, j + 1);
    }
}

/// Slashes in a concatenation are the slashes of the parts.
pub proof fn lemma_slash_count_append(s1: Seq<char>, s2: Seq<char>, i: int)
    requires
        0 <= i <= s1.len(),
    ensures
        slash_count_from(s1 + s2, i) == slash_count_from(s1, i) + slash_count_from(s2, 0),
    decreases s1.len() - i,
{
    if i == s1.len() {
        lemma_slash_count_shift(s1, s2, 0);
    } else {
        assert((s1 + s2)[i] == s1[i]);
        lemma_slash_count_append(s1, s2, i + 1);
    }
}

/// Software name and version a mint runs, advertised as one compact
/// `name/version` string.
#[derive(Clone, Debug, PartialEq, Eq, Hash)]
pub struct MintVersion {
    /// Mint software name.
    pub name: String,
    /// Version of that software.
    pub version: String,
}

impl MintVersion {
    /// Pair a software name with its version.
    pub fn new(name: String, version: String) -> (r: MintVersion)
        ensures
            r.name == name,
            r.version == version,
    {
        MintVersion { name, version }
    }

    /// The compact `name/version` form.
    pub fn encode(&self) -> (r: String)
        ensures
            r@ == self.name@ + seq!['/'] + self.version@,
    {
        let mut r = self.name.clone();
        r.append("/");
        r.append(self.version.as_str());
        proof {
            reveal_strlit("/");
            assert("/"@ =~= seq!['/']);
        }
        r
    }

    /// Parse the compact form: accepts exactly the strings with a single
    /// `'/'`, splitting at it into name and version.
    pub fn decode(s: &str) -> (r: Option<MintVersion>)
        ensures
            r is Some <==> slash_count(s@) == 1,
            match r {
                Some(v) => {
                    &&& v.name@ == s@.subrange(0, first_slash(s@))
                    &&& v.version@ == s@.subrange(first_slash(s@) + 1, s@.len() as int)
                },
                None => true,
            },
    {
        let n = s.unicode_len();
        let mut count: usize = 0;
        let mut pos: usize = 0;
        let mut i: usize = 0;
        while i < n
            invariant
                0 <= i <= n,
                n == s@.len(),
                count <= i,
                slash_count(s@) == count + slash_count_from(s@, i as int),
                count == 0 ==> first_slash(s@) == first_slash_from(s@, i as int),
                count > 0 ==> 0 <= pos < i && first_slash(s@) == pos as int && s@[pos as int]
                    == '/',
            decreases n - i,
        {
            let c = s.get_char(i);
            if c == '/' {
                if count == 0 {
                    pos = i;
                }
                count = count + 1;
            }
            i = i + 1;
        }
        if count != 1 {
            return None;
        }
        let name = s.substring_char(0, pos);
        let version = s.substring_char(pos + 1, n);
        Some(MintVersion { name: name.to_owned(), version: version.to_owned() })
    }
}

/// Encoding a version whose parts are slash-free yields a string that
/// decodes back to exactly the same parts: the round trip of the compact
/// form loses nothing.
pub proof fn lemma_version_encoding_round_trip(name: Seq<char>, version: Seq<char>)
    requires
        slash_count(name) == 0,
        slash_count(version) == 0,
    ensures
        ({
            let s = name + seq!['/'] + version;
            &&& slash_count(s) == 1
            &&& first_slash(s) == name.len()
            &&& s.subrange(0, name.len() as int) == name
            &&& s.subrange(name.len() as int + 1, s.len() as int) == version
        }),
{
    let sep = seq!['/'];
    let a = name + sep;
    let s = a + version;
    assert(slash_count_from(sep, 0) == 1) by {
        assert(sep[0] == '/');
        assert(slash_count_from(sep, 1) == 0);
    }
    lemma_slash_count_append(name, sep, 0);
    assert(slash_count(a) == 1);
    lemma_slash_count_append(a, version, 0);
    assert(slash_count(s) == 1);
    lemma_no_slash(name, 0);
    assert forall|k: int| 0 <= k < name.len() implies s[k] != '/' by {
        assert(s[k] == name[k]);
    }
    assert(s[name.len() as int] == '/');
    lemma_first_slash_at(s, 0, name.len() as int);
    assert(s.subrange(0, name.len() as int) =~= name);
    assert(s.subrange(name.len() as int + 1, s.len() as int) =~= version);
}

/// Decoding a single-slash string and re-encoding the parts gives the very
/// same string back, and the parts themselves are slash-free.
pub proof fn lemma_version_decoding_inverts(s: Seq<char>)
    requires
        slash_count(s) == 1,
    ensures
        ({
            let p = first_slash(s);
            &&& 0 <= p < s.len()
            &&& slash_count(s.subrange(0, p)) == 0
            &&& slash_count(s.subrange(p + 1, s.len() as int)) == 0
            &&& s.subrange(0, p) + seq!['/'] + s.subrange(p + 1, s.len() as int) == s
        }),
{
    lemma_first_slash_found(s, 0);
    let p = first_slash(s);
    let pre = s.subrange(0, p);
    let post = s.subrange(p + 1, s.len() as int);
    let sep = seq!['/'];
    assert(pre + sep + post =~= s);
    assert(slash_count_from(sep, 0) == 1) by {
        assert(sep[0] == '/');
        assert(slash_count_from(sep, 1) == 0);
    }
    lemma_slash_count_append(pre, sep, 0);
    lemma_slash_count_append(pre + sep, post, 0);
    assert(slash_count(pre + sep + post) == slash_count(pre) + 1 + slash_count(post));
}

/// Everything a mint advertises about itself, over pluggable method and
/// unit identifiers. Built field by field from a settings block.
#[derive(Clone, Debug, PartialEq)]
pub struct MintInfo<M, U> {
    /// Recognizable name of the mint.
    pub name: Option<String>,
    /// The mint's public key.
    pub pubkey: Option<PublicKey>,
    /// Implementation name and running version.
    pub version: Option<MintVersion>,
    /// Short description.
    pub description: Option<String>,
    /// Long description.
    pub description_long: Option<String>,
    /// Ways to contact the operator.
    pub contact: Option<Vec<ContactInfo>>,
    /// Which operations the mint supports, with their settings.
    pub nuts: NutsSettings<M, U>,
    /// Icon URL.
    pub icon_url: Option<String>,
    /// Endpoint URLs.
    pub urls: Option<Vec<String>>,
    /// Message of the day a wallet must show its user.
    pub motd: Option<String>,
    /// Server unix timestamp.
    pub time: Option<u64>,
}

impl<M, U> MintInfo<M, U> {
    /// Set the name.
    pub fn name(self, name: String) -> (r: Self)
        ensures
            r == (MintInfo { name: Some(name), ..self }),
    {
        Self { name: Some(name), ..self }
    }

    /// Set the public key.
    pub fn pubkey(self, pubkey: PublicKey) -> (r: Self)
        ensures
            r == (MintInfo { pubkey: Some(pubkey), ..self }),
    {
        Self { pubkey: Some(pubkey), ..self }
    }

    /// Set the software version.
    pub fn version(self, mint_version: MintVersion) -> (r: Self)
        ensures
            r == (MintInfo { version: Some(mint_version), ..self }),
    {
        Self { version: Some(mint_version), ..self }
    }

    /// Set the short description.
    pub fn description(self, description: String) -> (r: Self)
        ensures
            r == (MintInfo { description: Some(description), ..self }),
    {
        Self { description: Some(description), ..self }
    }

    /// Set the long description.
    pub fn long_description(self, description_long: String) -> (r: Self)
        ensures
            r == (MintInfo { description_long: Some(description_long), ..self }),
    {
        Self { description_long: Some(description_long), ..self }
    }

    /// Set the contact list.
    pub fn contact_info(self, contact_info: Vec<ContactInfo>) -> (r: Self)
        ensures
            r == (MintInfo { contact: Some(contact_info), ..self }),
    {
        Self { contact: Some(contact_info), ..self }
    }

    /// Set the supported operations.
    pub fn nuts(self, nuts: NutsSettings<M, U>) -> (r: Self)
        ensures
            r == (MintInfo { nuts, ..self }),
    {
        Self { nuts, ..self }
    }

    /// Set the icon URL.
    pub fn icon_url(self, icon_url: String) -> (r: Self)
        ensures
            r == (MintInfo { icon_url: Some(icon_url), ..self }),
    {
        Self { icon_url: Some(icon_url), ..self }
    }

    /// Set the message of the day.
    pub fn motd(self, motd: String) -> (r: Self)
        ensures
            r == (MintInfo { motd: Some(motd), ..self }),
    {
        Self { motd: Some(motd), ..self }
    }

    /// Set the server timestamp.
    pub fn time(self, time: u64) -> (r: Self)
        ensures
            r == (MintInfo { time: Some(time), ..self }),
    {
        Self { time: Some(time), ..self }
    }
}

/// The per-operation settings a mint advertises.
#[derive(Clone, Debug, PartialEq)]
pub struct NutsSettings<M, U> {
    /// Minting settings.
    pub nut04: nut04::Settings<M, U>,
    /// Melting settings.
    pub nut05: nut05::Settings<M, U>,
}

/// Accumulates the per-operation settings and reports precisely which block
/// is missing when asked to build an incomplete aggregate.
#[derive(Clone, Debug, PartialEq)]
pub struct NutsSettingsBuilder<M, U> {
    /// Minting settings, once provided.
    pub nut04: Option<nut04::Settings<M, U>>,
    /// Melting settings, once provided.
    pub nut05: Option<nut05::Settings<M, U>>,
}

impl<M, U> Default for NutsSettingsBuilder<M, U> {
    /// An empty builder: no settings block provided yet.
    fn default() -> (r: Self)
        ensures
            r.nut04 is None,
            r.nut05 is None,
    {
        Self { nut04: None, nut05: None }
    }
}

impl<M, U> NutsSettingsBuilder<M, U> {
    /// An empty builder: no settings block provided yet.
    pub fn new() -> (r: Self)
        ensures
            r.nut04 is None,
            r.nut05 is None,
    {
        Self { nut04: None, nut05: None }
    }

    /// Provide the minting settings.
    pub fn nut_04(self, nut04_settings: nut04::Settings<M, U>) -> (r: Self)
        ensures
            r.nut04 == Some(nut04_settings),
            r.nut05 == self.nut05,
    {
        Self { nut04: Some(nut04_settings), ..self }
    }

    /// Build the aggregate, or name the first missing block.
    pub fn build(self) -> (r: Result<NutsSettings<M, U>, NutsBuilderError>)
        ensures
            match (self.nut04, self.nut05) {
                (Some(n4), Some(n5)) => r == Ok::<NutsSettings<M, U>, NutsBuilderError>(
                    NutsSettings { nut04: n4, nut05: n5 },
                ),
                (None, _) => r == Err::<NutsSettings<M, U>, NutsBuilderError>(
                    NutsBuilderError::MissingConfig(4),
                ),
                (Some(_), None) => r == Err::<NutsSettings<M, U>, NutsBuilderError>(
                    NutsBuilderError::MissingConfig(5),
                ),
            },
    {
        let nut04 = match self.nut04 {
            Some(n) => n,
            None => { return Err(NutsBuilderError::MissingConfig(4)) },
        };
        let nut05 = match self.nut05 {
            Some(n) => n,
            None => { return Err(NutsBuilderError::MissingConfig(5)) },
        };
        Ok(NutsSettings { nut04, nut05 })
    }
}

/// Why building the settings aggregate failed.
#[derive(Clone, Copy, Debug, PartialEq, Eq, Structural)]
pub enum NutsBuilderError {
    /// The settings block for this operation number was never provided.
    MissingConfig(u8),
}

/// Whether one optional capability is supported.
#[derive(Clone, Copy, Debug, PartialEq, Eq, Structural, Default)]
pub struct SupportedSettings {
    /// True when the mint supports the capability.
    pub supported: bool,
}

/// One way to contact the mint operator.
#[derive(Clone, Debug, PartialEq, Eq, Hash)]
pub struct ContactInfo {
    /// Contact method, e.g. an email or messaging scheme.
    pub method: String,
    /// The address or handle under that method.
    pub info: String,
}

impl ContactInfo {
    /// Pair a contact method with its address.
    pub fn new(method: String, info: String) -> (r: ContactInfo)
        ensures
            r.method == method,
            r.info == info,
    {
        ContactInfo { method, info }
    }
}

} // verus!
