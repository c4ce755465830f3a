//! Move packages: build options and plans, `Move.toml` inspection, named addresses, and
//! the metadata and manifest of a compiled package.
use vstd::prelude::*;

use vstd::utf8::encode_utf8;

use crate::abi::{byte_views, stable_order, stable_sort_indices, string_bytes, text_bytes};
use crate::publisher::{blake3_digest, blake3_hash};
use crate::stdlib::{is_bootstrap_snapshot, StdlibSnapshot};
use crate::text::{chars_of, string_from_chars};
use crate::types::{
    address_display, hex_lower, hex_string, spec_from_hex_literal, AccountAddress,
    AddressParseError, HashValue, NamedAddressAssignment,
};

verus! {

/// Whether a published package may be replaced.
#[derive(Clone, Copy, Debug, Eq, PartialEq, Structural)]
pub enum UpgradePolicy {
    Immutable,
    Compatible,
    GovernanceOnly,
}

impl Default for UpgradePolicy {
    fn default() -> (r: Self)
        ensures
            r == UpgradePolicy::Immutable,
    {
        UpgradePolicy::Immutable
    }
}

/// What is stored about a published package.
#[derive(Clone, Debug, Eq, PartialEq)]
pub struct PackageMetadata {
    pub name: String,
    pub package_hash: HashValue,
    pub named_addresses: Vec<(String, AccountAddress)>,
    pub module_hashes: Vec<(String, HashValue)>,
    pub abi_hash: HashValue,
    pub upgrade_policy: UpgradePolicy,
    pub deployer: AccountAddress,
    pub version: u64,
}

pub const KNOWN_ATTRIBUTE_VIEW: &'static str = "view";

pub const DEFAULT_ARTIFACT_DIR: &'static str = "nexus-artifact";

pub const DEFAULT_BYTECODE_DIR: &'static str = "bytecode";

// ── Text helpers ────────────────────────────────────────────────────────

/// Unicode white space, as `char::is_whitespace` and `str::trim` know it.
pub open spec fn is_whitespace(c: char) -> bool {
    let v = c as u32;
    (0x09 <= v <= 0x0D) || v == 0x20 || v == 0x85 || v == 0xA0 || v == 0x1680 || (0x2000 <= v
        <= 0x200A) || v == 0x2028 || v == 0x2029 || v == 0x202F || v == 0x205F || v == 0x3000
}

fn is_whitespace_char(c: char) -> (r: bool)
    ensures
        r == is_whitespace(c),
{
    let v = c as u32;
    (0x09 <= v && v <= 0x0D) || v == 0x20 || v == 0x85 || v == 0xA0 || v == 0x1680 || (0x2000
        <= v && v <= 0x200A) || v == 0x2028 || v == 0x2029 || v == 0x202F || v == 0x205F || v
        == 0x3000
}

/// What a strip removes: double quotes when `quotes`, else white space.
pub open spec fn strippable(quotes: bool, c: char) -> bool {
    if quotes {
        c == '"'
    } else {
        is_whitespace(c)
    }
}

pub open spec fn strip_start(s: Seq<char>, quotes: bool) -> Seq<char>
    decreases s.len(),
{
    if s.len() > 0 && strippable(quotes, s[0]) {
        strip_start(s.drop_first(), quotes)
    } else {
        s
    }
}

pub open spec fn strip_end(s: Seq<char>, quotes: bool) -> Seq<char>
    decreases s.len(),
{
    if s.len() > 0 && strippable(quotes, s.last()) {
        strip_end(s.drop_last(), quotes)
    } else {
        s
    }
}

/// The text without leading and trailing strippable characters.
pub open spec fn strip(s: Seq<char>, quotes: bool) -> Seq<char> {
    strip_end(strip_start(s, quotes), quotes)
}

/// `str::trim`: without leading and trailing white space.
pub open spec fn trim(s: Seq<char>) -> Seq<char> {
    strip(s, false)
}

proof fn lemma_strip_start_at(s: Seq<char>, quotes: bool, lo: int)
    requires
        0 <= lo <= s.len(),
        forall|k: int| 0 <= k < lo ==> strippable(quotes, #[trigger] s[k]),
        lo < s.len() ==> !strippable(quotes, s[lo]),
    ensures
        strip_start(s, quotes) == s.skip(lo),
    decreases lo,
{
    if lo == 0 {
        assert(s.skip(0) =~= s);
    } else {
        assert forall|k: int| 0 <= k < lo - 1 implies strippable(
            quotes,
            #[trigger] s.drop_first()[k],
        ) by {
            assert(s.drop_first()[k] == s[k + 1]);
        }
        if lo < s.len() {
            assert(s.drop_first()[lo - 1] == s[lo]);
        }
        lemma_strip_start_at(s.drop_first(), quotes, lo - 1);
        assert(s.drop_first().skip(lo - 1) =~= s.skip(lo));
    }
}

proof fn lemma_strip_end_at(s: Seq<char>, quotes: bool, hi: int)
    requires
        0 <= hi <= s.len(),
        forall|k: int| hi <= k < s.len() ==> strippable(quotes, #[trigger] s[k]),
        hi > 0 ==> !strippable(quotes, s[hi - 1]),
    ensures
        strip_end(s, quotes) == s.take(hi),
    decreases s.len() - hi,
{
    if hi == s.len() {
        assert(s.take(hi) =~= s);
    } else {
        assert forall|k: int| hi <= k < s.len() - 1 implies strippable(
            quotes,
            #[trigger] s.drop_last()[k],
        ) by {
            assert(s.drop_last()[k] == s[k]);
        }
        if hi > 0 {
            assert(s.drop_last()[hi - 1] == s[hi - 1]);
        }
        lemma_strip_end_at(s.drop_last(), quotes, hi);
        assert(s.drop_last().take(hi) =~= s.take(hi));
    }
}

/// The characters without leading and trailing strippable ones.
fn strip_chars(s: &[char], quotes: bool) -> (r: Vec<char>)
    ensures
        r@ == strip(s@, quotes),
{
    let n = s.len();
    let mut lo: usize = 0;
    while lo < n
        invariant
            lo <= n,
            n == s@.len(),
            forall|k: int| 0 <= k < lo ==> strippable(quotes, #[trigger] s@[k]),
        ensures
            lo <= n,
            forall|k: int| 0 <= k < lo ==> strippable(quotes, #[trigger] s@[k]),
            lo < n ==> !strippable(quotes, s@[lo as int]),
        decreases n - lo,
    {
        let c = s[lo];
        let removable = if quotes {
            c == '"'
        } else {
            is_whitespace_char(c)
        };
        if !removable {
            break;
        }
        lo += 1;
    }
    proof {
        lemma_strip_start_at(s@, quotes, lo as int);
    }
    let ghost t = s@.skip(lo as int);
    let mut hi: usize = n;
    while hi > lo
        invariant
            lo <= hi <= n,
            n == s@.len(),
            t == s@.skip(lo as int),
            forall|k: int| hi - lo <= k < t.len() ==> strippable(quotes, #[trigger] t[k]),
        ensures
            lo <= hi <= n,
            forall|k: int| hi - lo <= k < t.len() ==> strippable(quotes, #[trigger] t[k]),
            hi > lo ==> !strippable(quotes, t[hi - lo - 1]),
        decreases hi,
    {
        let c = s[hi - 1];
        let removable = if quotes {
            c == '"'
        } else {
            is_whitespace_char(c)
        };
        if !removable {
            break;
        }
        hi -= 1;
    }
    proof {
        lemma_strip_end_at(t, quotes, hi - lo);
    }
    let mut out: Vec<char> = Vec::new();
    let mut k: usize = lo;
    while k < hi
        invariant
            lo <= k <= hi,
            hi <= n,
            n == s@.len(),
            out@ == s@.subrange(lo as int, k as int),
        decreases hi - k,
    {
        out.push(s[k]);
        assert(s@.subrange(lo as int, k as int + 1) =~= s@.subrange(lo as int, k as int).push(
            s@[k as int],
        ));
        k += 1;
    }
    assert(t.take(hi - lo) =~= s@.subrange(lo as int, hi as int));
    out
}

/// The first position of `c` in `s`.
pub open spec fn find_char(s: Seq<char>, c: char) -> Option<int>
    decreases s.len(),
{
    if s.len() == 0 {
        None
    } else if s[0] == c {
        Some(0)
    } else {
        match find_char(s.drop_first(), c) {
            Some(i) => Some(i + 1),
            None => None,
        }
    }
}

proof fn lemma_find_char_at(s: Seq<char>, c: char, j: int)
    requires
        0 <= j <= s.len(),
        forall|k: int| 0 <= k < j ==> #[trigger] s[k] != c,
        j < s.len() ==> s[j] == c,
    ensures
        find_char(s, c) == (if j < s.len() {
            Some(j)
        } else {
            None::<int>
        }),
    decreases j,
{
    if j > 0 {
        assert forall|k: int| 0 <= k < j - 1 implies #[trigger] s.drop_first()[k] != c by {
            assert(s.drop_first()[k] == s[k + 1]);
        }
        if j < s.len() {
            assert(s.drop_first()[j - 1] == s[j]);
        }
        assert(s[0] != c);
        lemma_find_char_at(s.drop_first(), c, j - 1);
    }
}

/// The first position of `c` in `s` at or after `from`, relative to `from`.
fn find_char_from(s: &Vec<char>, from: usize, c: char) -> (r: Option<usize>)
    requires
        from <= s@.len(),
    ensures
        find_char(s@.skip(from as int), c) == match r {
            Some(i) => Some(i - from),
            None => None::<int>,
        },
        r matches Some(i) ==> from <= i < s@.len() && s@[i as int] == c,
{
    let ghost t = s@.skip(from as int);
    let mut j: usize = from;
    while j < s.len()
        invariant
            from <= j <= s@.len(),
            t == s@.skip(from as int),
            forall|k: int| 0 <= k < j - from ==> #[trigger] t[k] != c,
        decreases s@.len() - j,
    {
        if s[j] == c {
            proof {
                lemma_find_char_at(t, c, j - from);
            }
            return Some(j);
        }
        j += 1;
    }
    proof {
        lemma_find_char_at(t, c, j - from);
    }
    None
}

/// The characters of `s` from `lo` up to `hi`.
fn chars_range(s: &Vec<char>, lo: usize, hi: usize) -> (r: Vec<char>)
    requires
        lo <= hi <= s@.len(),
    ensures
        r@ == s@.subrange(lo as int, hi as int),
{
    let mut out: Vec<char> = Vec::new();
    let mut k: usize = lo;
    while k < hi
        invariant
            lo <= k <= hi,
            hi <= s@.len(),
            out@ == s@.subrange(lo as int, k as int),
        decreases hi - k,
    {
        out.push(s[k]);
        assert(s@.subrange(lo as int, k as int + 1) =~= s@.subrange(lo as int, k as int).push(
            s@[k as int],
        ));
        k += 1;
    }
    out
}

/// Character-wise equality with a literal.
fn chars_equal(a: &Vec<char>, b: &str) -> (r: bool)
    ensures
        r == (a@ == b@),
{
    let bc = chars_of(b);
    if a.len() != bc.len() {
        return false;
    }
    let mut i: usize = 0;
    while i < a.len()
        invariant
            i <= a@.len(),
            a@.len() == bc@.len(),
            bc@ == b@,
            forall|j: int| 0 <= j < i ==> a@[j] == bc@[j],
        decreases a@.len() - i,
    {
        if a[i] != bc[i] {
            return false;
        }
        i += 1;
    }
    assert(a@ =~= bc@);
    true
}

// ── Build inputs ────────────────────────────────────────────────────────

/// What a build is asked to do.
#[derive(Clone, Debug, Eq, PartialEq)]
pub struct BuildOptions {
    pub package_dir: String,
    pub named_addresses: Vec<NamedAddressAssignment>,
    pub skip_fetch_latest_git_deps: bool,
    pub known_attributes: Vec<String>,
}

impl BuildOptions {
    /// Offline options for a package directory: no named addresses, no fetching of git
    /// dependencies, and the `view` attribute known.
    pub fn bootstrap(package_dir: &str) -> (r: Self)
        ensures
            r.package_dir@ == package_dir@,
            r.named_addresses@.len() == 0,
            r.skip_fetch_latest_git_deps,
            r.known_attributes@.len() == 1,
            r.known_attributes@[0]@ == "view"@,
    {
        let view = "view".to_owned();
        BuildOptions {
            package_dir: package_dir.to_owned(),
            named_addresses: Vec::new(),
            skip_fetch_latest_git_deps: true,
            known_attributes: vec![view],
        }
    }
}

/// `Path::join` of a relative segment: a separator goes between the two unless the base is
/// empty or already ends with one.
pub open spec fn path_join(base: Seq<char>, segment: Seq<char>) -> Seq<char> {
    if base.len() == 0 || base.last() == '/' {
        base + segment
    } else {
        base + seq!['/'] + segment
    }
}

fn join_path(base: &String, segment: &str) -> (r: String)
    ensures
        r@ == path_join(base@, segment@),
{
    let b = chars_of(base.as_str());
    let mut out = string_from_chars(b.as_slice());
    if b.len() > 0 && b[b.len() - 1] != '/' {
        crate::text::push_char(&mut out, '/');
    }
    crate::text::push_chars(&mut out, chars_of(segment).as_slice());
    out
}

/// What verification learns of a module.
#[derive(Clone, Debug, Eq, PartialEq)]
pub struct ModuleInfo {
    pub name: String,
    pub address: AccountAddress,
    pub bytecode_hash: [u8; 32],
    pub bytecode_size: usize,
    pub immediate_dependencies: Vec<String>,
    pub friends: Vec<String>,
}

/// A compiled package and what verification learned of its modules.
#[derive(Clone, Debug, Eq, PartialEq)]
pub struct VerifiedBuildResult {
    pub package: CompiledPackage,
    pub module_info: Vec<ModuleInfo>,
}

/// Where a package's build outputs go.
#[derive(Clone, Debug, Eq, PartialEq)]
pub struct BuildArtifactLayout {
    pub package_dir: String,
    pub build_dir: String,
    pub artifact_dir: String,
    pub bytecode_dir: String,
}

impl BuildArtifactLayout {
    /// `build/`, `nexus-artifact/` and `nexus-artifact/bytecode/` under the package.
    pub fn for_package_dir(package_dir: &str) -> (r: Self)
        ensures
            r.package_dir@ == package_dir@,
            r.build_dir@ == path_join(package_dir@, "build"@),
            r.artifact_dir@ == path_join(package_dir@, "nexus-artifact"@),
            r.bytecode_dir@ == path_join(path_join(package_dir@, "nexus-artifact"@), "bytecode"@),
    {
        let package_dir = package_dir.to_owned();
        let build_dir = join_path(&package_dir, "build");
        let artifact_dir = join_path(&package_dir, DEFAULT_ARTIFACT_DIR);
        let bytecode_dir = join_path(&artifact_dir, DEFAULT_BYTECODE_DIR);
        BuildArtifactLayout { package_dir, build_dir, artifact_dir, bytecode_dir }
    }
}

/// A compiled module: its name and bytecode.
#[derive(Clone, Debug, Eq, PartialEq)]
pub struct CompiledModule {
    pub name: String,
    pub bytes: Vec<u8>,
}

/// What a compile backend produces.
#[derive(Clone, Debug, Eq, PartialEq)]
pub struct CompiledPackage {
    pub package_name: String,
    pub upgrade_policy: UpgradePolicy,
    pub named_addresses: Vec<NamedAddressAssignment>,
    pub modules: Vec<CompiledModule>,
}

/// The manifest written next to a build's bytecode.
#[derive(Clone, Debug, Eq, PartialEq)]
pub struct ArtifactManifest {
    pub package_name: String,
    pub package_hash: String,
    pub module_count: usize,
    pub total_bytecode_bytes: usize,
    pub upgrade_policy: String,
    pub modules: Vec<ArtifactModule>,
}

/// One module of a manifest.
#[derive(Clone, Debug, Eq, PartialEq)]
pub struct ArtifactModule {
    pub name: String,
    pub size_bytes: usize,
    pub blake3: String,
}

/// A build: its options, what `Move.toml` says, and where outputs go.
#[derive(Clone, Debug, Eq, PartialEq)]
pub struct BuildPlan {
    pub options: BuildOptions,
    pub move_toml: MoveTomlInfo,
    pub artifact_layout: BuildArtifactLayout,
}

/// A compiler that turns a build plan into a compiled package.
/// What a compile returns is the backend's to decide; `compiles` says which results a
/// backend admits for a plan, and a backend that says nothing admits every result.
pub trait CompileBackend {
    /// Whether `result` is a result this backend may give for `plan`.
    open spec fn compiles(&self, plan: BuildPlan, result: Result<CompiledPackage, BuildError>) -> bool {
        true
    }

    fn compile(&self, plan: &BuildPlan) -> (r: Result<CompiledPackage, BuildError>)
        ensures
            self.compiles(*plan, r),
    ;
}

/// How the package frontend is set up.
#[derive(Clone, Debug, Eq, PartialEq)]
pub struct PackageFrontendPlan {
    pub allows_remote_git: bool,
    pub stdlib_snapshot: StdlibSnapshot,
    pub build_options: BuildOptions,
}

impl PackageFrontendPlan {
    /// Offline: no remote git, the bootstrap standard library, bootstrap build options.
    pub fn bootstrap(package_dir: &str) -> (r: Self)
        ensures
            !r.allows_remote_git,
            r.stdlib_snapshot.source@ == "stdlib/"@,
            r.stdlib_snapshot.modules@.len() == 13,
            is_bootstrap_snapshot(r.stdlib_snapshot),
            r.build_options.package_dir@ == package_dir@,
            r.build_options.named_addresses@.len() == 0,
            r.build_options.skip_fetch_latest_git_deps,
            r.build_options.known_attributes@.len() == 1,
            r.build_options.known_attributes@[0]@ == "view"@,
    {
        PackageFrontendPlan {
            allows_remote_git: false,
            stdlib_snapshot: StdlibSnapshot::bootstrap(),
            build_options: BuildOptions::bootstrap(package_dir),
        }
    }
}

/// What `Move.toml` declares.
#[derive(Clone, Debug, Eq, PartialEq)]
pub struct MoveTomlInfo {
    pub package_name: Option<String>,
    pub upgrade_policy: UpgradePolicy,
    pub named_addresses: Vec<NamedAddressAssignment>,
}

/// A malformed named-address assignment.
#[derive(Clone, Debug, Eq, PartialEq)]
pub enum BuildConfigError {
    MissingSeparator(String),
    InvalidAddress { input: String, reason: AddressParseError },
}

/// Why a build failed.
#[derive(Clone, Debug, Eq, PartialEq)]
pub enum BuildError {
    InvalidConfig(BuildConfigError),
    PackageDirMissing(String),
    Backend(String),
    NoModulesProduced,
}

// ── Named addresses ─────────────────────────────────────────────────────

/// An assignment taken by value: its name and its address bytes.
pub open spec fn assignment_view(a: NamedAddressAssignment) -> (Seq<char>, Seq<u8>) {
    (a.name@, a.address@)
}

pub open spec fn assignments_view(s: Seq<NamedAddressAssignment>) -> Seq<(Seq<char>, Seq<u8>)> {
    s.map_values(|a: NamedAddressAssignment| assignment_view(a))
}

/// A configuration error taken by value: the offending text, and the address error for an
/// invalid address.
pub open spec fn config_error_view(e: BuildConfigError) -> (Seq<char>, Option<AddressParseError>) {
    match e {
        BuildConfigError::MissingSeparator(input) => (input@, None),
        BuildConfigError::InvalidAddress { input, reason } => (input@, Some(reason)),
    }
}

/// `name = 0xADDR`: split at the first `=`, both sides trimmed, the address parsed as a hex
/// literal. Without `=` the whole input is reported; a bad address is reported trimmed.
pub open spec fn spec_parse_assignment(s: Seq<char>) -> Result<
    (Seq<char>, Seq<u8>),
    (Seq<char>, Option<AddressParseError>),
> {
    match find_char(s, '=') {
        None => Err((s, None)),
        Some(i) => {
            let name = trim(s.take(i));
            let address = trim(s.skip(i + 1));
            match spec_from_hex_literal(encode_utf8(address)) {
                Ok(bytes) => Ok((name, bytes)),
                Err(reason) => Err((address, Some(reason))),
            }
        },
    }
}

pub open spec fn assignment_result_view(r: Result<NamedAddressAssignment, BuildConfigError>) -> Result<
    (Seq<char>, Seq<u8>),
    (Seq<char>, Option<AddressParseError>),
> {
    match r {
        Ok(a) => Ok(assignment_view(a)),
        Err(e) => Err(config_error_view(e)),
    }
}

/// Parses `name=0xADDR`.
pub fn parse_named_address_assignment(input: &str) -> (r: Result<
    NamedAddressAssignment,
    BuildConfigError,
>)
    ensures
        assignment_result_view(r) == spec_parse_assignment(input@),
{
    let chars = chars_of(input);
    let found = find_char_from(&chars, 0, '=');
    assert(chars@.skip(0) =~= chars@);
    match found {
        None => Err(BuildConfigError::MissingSeparator(input.to_owned())),
        Some(i) => {
            let n: usize = chars.len();
            assert(i < n);
            let left = chars_range(&chars, 0, i);
            let right = chars_range(&chars, i + 1, n);
            assert(chars@.take(i as int) =~= left@);
            assert(chars@.skip(i as int + 1) =~= right@);
            let name = strip_chars(left.as_slice(), false);
            let address = strip_chars(right.as_slice(), false);
            let address_text = string_from_chars(address.as_slice());
            match AccountAddress::from_hex_literal(address_text.as_str()) {
                Ok(parsed) => Ok(
                    NamedAddressAssignment { name: string_from_chars(name.as_slice()), address: parsed },
                ),
                Err(reason) => Err(BuildConfigError::InvalidAddress { input: address_text, reason }),
            }
        },
    }
}

/// Parses every assignment; the first that fails is the error.
pub fn parse_named_address_assignments(inputs: &[String]) -> (r: Result<
    Vec<NamedAddressAssignment>,
    BuildConfigError,
>)
    ensures
        match r {
            Ok(v) => {
                &&& v@.len() == inputs@.len()
                &&& forall|i: int|
                    0 <= i < inputs@.len() ==> spec_parse_assignment(#[trigger] inputs@[i]@) == Ok::<
                        (Seq<char>, Seq<u8>),
                        (Seq<char>, Option<AddressParseError>),
                    >(assignment_view(v@[i]))
            },
            Err(e) => exists|i: int|
                0 <= i < inputs@.len() && spec_parse_assignment(#[trigger] inputs@[i]@) == Err::<
                    (Seq<char>, Seq<u8>),
                    (Seq<char>, Option<AddressParseError>),
                >(config_error_view(e)) && forall|j: int|
                    0 <= j < i ==> (#[trigger] spec_parse_assignment(inputs@[j]@)) is Ok,
        },
{
    let mut out: Vec<NamedAddressAssignment> = Vec::new();
    let mut i: usize = 0;
    while i < inputs.len()
        invariant
            i <= inputs@.len(),
            out@.len() == i,
            forall|k: int|
                0 <= k < i ==> spec_parse_assignment(#[trigger] inputs@[k]@) == Ok::<
                    (Seq<char>, Seq<u8>),
                    (Seq<char>, Option<AddressParseError>),
                >(assignment_view(out@[k])),
        decreases inputs@.len() - i,
    {
        let parsed = parse_named_address_assignment(inputs[i].as_str());
        match parsed {
            Ok(a) => {
                out.push(a);
            },
            Err(e) => {
                assert(spec_parse_assignment(inputs@[i as int]@) == Err::<
                    (Seq<char>, Seq<u8>),
                    (Seq<char>, Option<AddressParseError>),
                >(config_error_view(e)));
                assert forall|j: int| 0 <= j < i implies (#[trigger] spec_parse_assignment(
                    inputs@[j]@,
                )) is Ok by {}
                return Err(e);
            },
        }
        i += 1;
    }
    Ok(out)
}

/// The first position of an assignment with the given name.
pub open spec fn find_name(list: Seq<(Seq<char>, Seq<u8>)>, name: Seq<char>) -> Option<int>
    decreases list.len(),
{
    if list.len() == 0 {
        None
    } else if list[0].0 == name {
        Some(0)
    } else {
        match find_name(list.drop_first(), name) {
            Some(i) => Some(i + 1),
            None => None,
        }
    }
}

/// An override replaces the first assignment of the same name, or is added at the end.
pub open spec fn merge_one(list: Seq<(Seq<char>, Seq<u8>)>, entry: (Seq<char>, Seq<u8>)) -> Seq<
    (Seq<char>, Seq<u8>),
> {
    match find_name(list, entry.0) {
        Some(k) => list.update(k, entry),
        None => list.push(entry),
    }
}

/// The overrides applied in order.
pub open spec fn merge_all(
    list: Seq<(Seq<char>, Seq<u8>)>,
    overrides: Seq<(Seq<char>, Seq<u8>)>,
) -> Seq<(Seq<char>, Seq<u8>)>
    decreases overrides.len(),
{
    if overrides.len() == 0 {
        list
    } else {
        merge_one(merge_all(list, overrides.drop_last()), overrides.last())
    }
}

proof fn lemma_find_name_at(list: Seq<(Seq<char>, Seq<u8>)>, name: Seq<char>, j: int)
    requires
        0 <= j <= list.len(),
        forall|k: int| 0 <= k < j ==> (#[trigger] list[k]).0 != name,
        j < list.len() ==> list[j].0 == name,
    ensures
        find_name(list, name) == (if j < list.len() {
            Some(j)
        } else {
            None::<int>
        }),
    decreases j,
{
    if j > 0 {
        assert forall|k: int| 0 <= k < j - 1 implies (#[trigger] list.drop_first()[k]).0 != name by {
            assert(list.drop_first()[k] == list[k + 1]);
        }
        if j < list.len() {
            assert(list.drop_first()[j - 1] == list[j]);
        }
        assert(list[0].0 != name);
        lemma_find_name_at(list.drop_first(), name, j - 1);
    }
}

/// The position `find_name` reports is the first entry with the name; no position means no
/// entry has it.
pub proof fn lemma_find_name_spec(list: Seq<(Seq<char>, Seq<u8>)>, name: Seq<char>)
    ensures
        match find_name(list, name) {
            Some(k) => 0 <= k < list.len() && list[k].0 == name && forall|t: int|
                0 <= t < k ==> (#[trigger] list[t]).0 != name,
            None => forall|t: int| 0 <= t < list.len() ==> (#[trigger] list[t]).0 != name,
        },
    decreases list.len(),
{
    if list.len() > 0 && list[0].0 != name {
        let rest = list.drop_first();
        lemma_find_name_spec(rest, name);
        assert forall|t: int| 1 <= t < list.len() implies list[t] == rest[t - 1] by {}
    }
}

/// After an override is applied, the first assignment of its name is the override.
pub proof fn law_override_wins(list: Seq<(Seq<char>, Seq<u8>)>, entry: (Seq<char>, Seq<u8>))
    ensures
        find_name(merge_one(list, entry), entry.0) matches Some(k) && merge_one(list, entry)[k]
            == entry,
{
    lemma_find_name_spec(list, entry.0);
    let merged = merge_one(list, entry);
    match find_name(list, entry.0) {
        Some(k) => {
            assert forall|t: int| 0 <= t < k implies (#[trigger] merged[t]).0 != entry.0 by {
                assert(merged[t] == list[t]);
            }
            lemma_find_name_at(merged, entry.0, k);
        },
        None => {
            assert forall|t: int| 0 <= t < list.len() implies (#[trigger] merged[t]).0 != entry.0 by {
                assert(merged[t] == list[t]);
            }
            lemma_find_name_at(merged, entry.0, list.len() as int);
        },
    }
}

/// A copy of an assignment.
fn copy_assignment(a: &NamedAddressAssignment) -> (r: NamedAddressAssignment)
    ensures
        r == *a,
{
    NamedAddressAssignment { name: a.name.clone(), address: a.address }
}

fn copy_assignments(list: &Vec<NamedAddressAssignment>) -> (r: Vec<NamedAddressAssignment>)
    ensures
        r@ == list@,
{
    let mut out: Vec<NamedAddressAssignment> = Vec::new();
    let mut i: usize = 0;
    while i < list.len()
        invariant
            i <= list@.len(),
            out@ == list@.take(i as int),
        decreases list@.len() - i,
    {
        out.push(copy_assignment(&list[i]));
        assert(list@.take(i as int + 1) =~= list@.take(i as int).push(list@[i as int]));
        i += 1;
    }
    assert(list@.take(list@.len() as int) =~= list@);
    out
}

/// The named addresses of `Move.toml` with the build options' assignments applied over
/// them: each replaces the first of the same name, or is added at the end.
pub fn merged_named_addresses(plan: &BuildPlan) -> (r: Vec<NamedAddressAssignment>)
    ensures
        assignments_view(r@) == merge_all(
            assignments_view(plan.move_toml.named_addresses@),
            assignments_view(plan.options.named_addresses@),
        ),
{
    let overrides = &plan.options.named_addresses;
    let ghost ov = assignments_view(overrides@);
    let mut merged = copy_assignments(&plan.move_toml.named_addresses);
    let ghost base = assignments_view(plan.move_toml.named_addresses@);
    let mut i: usize = 0;
    while i < overrides.len()
        invariant
            i <= overrides@.len(),
            ov == assignments_view(overrides@),
            base == assignments_view(plan.move_toml.named_addresses@),
            assignments_view(merged@) == merge_all(base, ov.take(i as int)),
        decreases overrides@.len() - i,
    {
        let o = &overrides[i];
        let ghost mv = assignments_view(merged@);
        let mut k: usize = 0;
        while k < merged.len()
            invariant
                k <= merged@.len(),
                mv == assignments_view(merged@),
                forall|t: int| 0 <= t < k ==> (#[trigger] mv[t]).0 != o.name@,
            ensures
                k <= merged@.len(),
                forall|t: int| 0 <= t < k ==> (#[trigger] mv[t]).0 != o.name@,
                k < merged@.len() ==> mv[k as int].0 == o.name@,
            decreases merged@.len() - k,
        {
            if merged[k].name == o.name {
                break;
            }
            k += 1;
        }
        proof {
            lemma_find_name_at(mv, o.name@, k as int);
            assert(ov.take(i as int + 1).drop_last() =~= ov.take(i as int));
            assert(ov.take(i as int + 1).last() == assignment_view(*o));
        }
        if k < merged.len() {
            merged.set(k, copy_assignment(o));
            assert(assignments_view(merged@) =~= mv.update(k as int, assignment_view(*o)));
        } else {
            merged.push(copy_assignment(o));
            assert(assignments_view(merged@) =~= mv.push(assignment_view(*o)));
        }
        i += 1;
    }
    assert(ov.take(overrides@.len() as int) =~= ov);
    merged
}

// ── Move.toml ───────────────────────────────────────────────────────────

/// The state of a `Move.toml` scan: the current section, the package name, the upgrade
/// policy, and the `[addresses]` and `[dev-addresses]` assignments.
pub type TomlModel = (
    Seq<char>,
    Option<Seq<char>>,
    UpgradePolicy,
    Seq<(Seq<char>, Seq<u8>)>,
    Seq<(Seq<char>, Seq<u8>)>,
);

pub open spec fn toml_init() -> TomlModel {
    (Seq::empty(), None, UpgradePolicy::Immutable, Seq::empty(), Seq::empty())
}

/// A line up to its first `#`.
pub open spec fn before_hash(line: Seq<char>) -> Seq<char> {
    match find_char(line, '#') {
        Some(i) => line.take(i),
        None => line,
    }
}

/// `compatible`, `governance` or `governance_only`; anything else is immutable.
pub open spec fn policy_from_text(v: Seq<char>) -> UpgradePolicy {
    if v == "compatible"@ {
        UpgradePolicy::Compatible
    } else if v == "governance"@ || v == "governance_only"@ {
        UpgradePolicy::GovernanceOnly
    } else {
        UpgradePolicy::Immutable
    }
}

/// Adds `name = value` when the value is an address literal; `_` and invalid addresses are
/// skipped.
pub open spec fn push_named(
    list: Seq<(Seq<char>, Seq<u8>)>,
    name: Seq<char>,
    value: Seq<char>,
) -> Seq<(Seq<char>, Seq<u8>)> {
    if value == "_"@ {
        list
    } else {
        match spec_from_hex_literal(encode_utf8(value)) {
            Ok(bytes) => list.push((name, bytes)),
            Err(_) => list,
        }
    }
}

/// One line of `Move.toml`: comments after `#` and surrounding white space are dropped;
/// `[name]` opens a section; `key = value` (value trimmed, then stripped of quotes) sets
/// the package name or upgrade policy under `[package]`, or adds an assignment under
/// `[addresses]` or `[dev-addresses]`; everything else is ignored.
pub open spec fn toml_step(st: TomlModel, raw: Seq<char>) -> TomlModel {
    let line = trim(before_hash(raw));
    if line.len() == 0 {
        st
    } else if line[0] == '[' && line.last() == ']' {
        (trim(line.subrange(1, line.len() - 1)), st.1, st.2, st.3, st.4)
    } else {
        match find_char(line, '=') {
            None => st,
            Some(i) => {
                let key = trim(line.take(i));
                let value = strip(trim(line.skip(i + 1)), true);
                if st.0 == "package"@ && key == "name"@ {
                    (st.0, Some(value), st.2, st.3, st.4)
                } else if st.0 == "package"@ && key == "upgrade_policy"@ {
                    (st.0, st.1, policy_from_text(value), st.3, st.4)
                } else if st.0 == "addresses"@ {
                    (st.0, st.1, st.2, push_named(st.3, key, value), st.4)
                } else if st.0 == "dev-addresses"@ {
                    (st.0, st.1, st.2, st.3, push_named(st.4, key, value))
                } else {
                    st
                }
            },
        }
    }
}

/// A found character lies inside the text.
pub proof fn lemma_find_char_bound(s: Seq<char>, c: char)
    ensures
        find_char(s, c) matches Some(i) ==> 0 <= i < s.len() && s[i] == c,
    decreases s.len(),
{
    if s.len() > 0 && s[0] != c {
        lemma_find_char_bound(s.drop_first(), c);
    }
}

/// The scan of the lines of `s` (split at `\n`; a `\r` before it is white space and
/// trimmed with the rest).
pub open spec fn toml_scan(s: Seq<char>, st: TomlModel) -> TomlModel
    decreases s.len(),
{
    match find_char(s, '\n') {
        Some(i) => {
            proof {
                lemma_find_char_bound(s, '\n');
            }
            if 0 <= i < s.len() {
                toml_scan(s.skip(i + 1), toml_step(st, s.take(i)))
            } else {
                st
            }
        },
        None => if s.len() == 0 {
            st
        } else {
            toml_step(st, s)
        },
    }
}

/// What `inspect_move_toml` reports for a scan: the package name, the policy, and the
/// `[dev-addresses]` when there are any, else the `[addresses]`.
pub open spec fn toml_info_matches(r: MoveTomlInfo, m: TomlModel) -> bool {
    &&& match r.package_name {
        Some(n) => m.1 == Some(n@),
        None => m.1 is None,
    }
    &&& r.upgrade_policy == m.2
    &&& assignments_view(r.named_addresses@) == if m.4.len() == 0 {
        m.3
    } else {
        m.4
    }
}

struct TomlScan {
    section: Vec<char>,
    package_name: Option<Vec<char>>,
    policy: UpgradePolicy,
    addresses: Vec<NamedAddressAssignment>,
    dev_addresses: Vec<NamedAddressAssignment>,
}

impl TomlScan {
    spec fn model(&self) -> TomlModel {
        (
            self.section@,
            match self.package_name {
                Some(n) => Some(n@),
                None => None,
            },
            self.policy,
            assignments_view(self.addresses@),
            assignments_view(self.dev_addresses@),
        )
    }
}

/// Adds `name = value` to `output` when the value is an address literal.
fn push_named_address(name: &Vec<char>, value: &Vec<char>, output: &mut Vec<NamedAddressAssignment>)
    ensures
        assignments_view(final(output)@) == push_named(assignments_view(old(output)@), name@, value@),
{
    if chars_equal(value, "_") {
        return;
    }
    let text = string_from_chars(value.as_slice());
    match AccountAddress::from_hex_literal(text.as_str()) {
        Ok(address) => {
            let ghost before = output@;
            output.push(NamedAddressAssignment { name: string_from_chars(name.as_slice()), address });
            assert(assignments_view(output@) =~= assignments_view(before).push(
                (name@, address@),
            ));
        },
        Err(_) => {},
    }
}

fn toml_step_exec(st: &mut TomlScan, raw: &Vec<char>)
    ensures
        final(st).model() == toml_step(old(st).model(), raw@),
{
    let hash = find_char_from(raw, 0, '#');
    assert(raw@.skip(0) =~= raw@);
    let prefix = match hash {
        Some(i) => chars_range(raw, 0, i),
        None => chars_range(raw, 0, raw.len()),
    };
    assert(prefix@ =~= before_hash(raw@));
    let line = strip_chars(prefix.as_slice(), false);
    let n = line.len();
    if n == 0 {
        return;
    }
    if line[0] == '[' && line[n - 1] == ']' {
        let inner = chars_range(&line, 1, n - 1);
        st.section = strip_chars(inner.as_slice(), false);
        return;
    }
    let eq = find_char_from(&line, 0, '=');
    assert(line@.skip(0) =~= line@);
    match eq {
        None => {},
        Some(i) => {
            let left = chars_range(&line, 0, i);
            let right = chars_range(&line, i + 1, n);
            assert(line@.take(i as int) =~= left@);
            assert(line@.skip(i as int + 1) =~= right@);
            let key = strip_chars(left.as_slice(), false);
            let trimmed = strip_chars(right.as_slice(), false);
            let value = strip_chars(trimmed.as_slice(), true);
            let in_package = chars_equal(&st.section, "package");
            if in_package && chars_equal(&key, "name") {
                st.package_name = Some(value);
            } else if in_package && chars_equal(&key, "upgrade_policy") {
                st.policy = if chars_equal(&value, "compatible") {
                    UpgradePolicy::Compatible
                } else if chars_equal(&value, "governance") || chars_equal(&value, "governance_only") {
                    UpgradePolicy::GovernanceOnly
                } else {
                    UpgradePolicy::Immutable
                };
            } else if chars_equal(&st.section, "addresses") {
                push_named_address(&key, &value, &mut st.addresses);
            } else if chars_equal(&st.section, "dev-addresses") {
                push_named_address(&key, &value, &mut st.dev_addresses);
            }
        },
    }
}

/// Reads the package name, upgrade policy and named addresses from `Move.toml` text;
/// `[dev-addresses]` win over `[addresses]` when there are any.
pub fn inspect_move_toml(contents: &str) -> (r: MoveTomlInfo)
    ensures
        toml_info_matches(r, toml_scan(contents@, toml_init())),
{
    let chars = chars_of(contents);
    let ghost s = contents@;
    let n = chars.len();
    let mut st = TomlScan {
        section: Vec::new(),
        package_name: None,
        policy: UpgradePolicy::Immutable,
        addresses: Vec::new(),
        dev_addresses: Vec::new(),
    };
    assert(st.model() == toml_init()) by {
        assert(assignments_view(Seq::<NamedAddressAssignment>::empty()) =~= Seq::empty());
    }
    assert(s.skip(0) =~= s);
    let mut pos: usize = 0;
    while pos < n
        invariant
            pos <= n,
            n == chars@.len(),
            chars@ == s,
            toml_scan(s, toml_init()) == toml_scan(s.skip(pos as int), st.model()),
        decreases n - pos,
    {
        let ghost rest = s.skip(pos as int);
        proof {
            lemma_find_char_bound(rest, '\n');
        }
        match find_char_from(&chars, pos, '\n') {
            Some(j) => {
                let line = chars_range(&chars, pos, j);
                assert(rest.take(j - pos) =~= line@);
                assert(rest.skip(j - pos + 1) =~= s.skip(j as int + 1));
                toml_step_exec(&mut st, &line);
                pos = j + 1;
            },
            None => {
                let line = chars_range(&chars, pos, n);
                assert(rest =~= line@);
                toml_step_exec(&mut st, &line);
                pos = n;
                assert(s.skip(n as int) =~= Seq::<char>::empty());
            },
        }
    }
    assert(s.skip(pos as int) =~= Seq::<char>::empty());
    let package_name = match st.package_name {
        Some(n) => Some(string_from_chars(n.as_slice())),
        None => None,
    };
    let named_addresses = if st.dev_addresses.len() == 0 {
        st.addresses
    } else {
        st.dev_addresses
    };
    MoveTomlInfo { package_name, upgrade_policy: st.policy, named_addresses }
}

// ── Build plans ─────────────────────────────────────────────────────────

/// A plan for the options: what `Move.toml` declares and the package's output layout.
pub open spec fn plan_matches(plan: BuildPlan, options: BuildOptions, move_toml: Seq<char>) -> bool {
    &&& plan.options == options
    &&& toml_info_matches(plan.move_toml, toml_scan(move_toml, toml_init()))
    &&& plan.artifact_layout.package_dir@ == options.package_dir@
    &&& plan.artifact_layout.build_dir@ == path_join(options.package_dir@, "build"@)
    &&& plan.artifact_layout.artifact_dir@ == path_join(options.package_dir@, "nexus-artifact"@)
    &&& plan.artifact_layout.bytecode_dir@ == path_join(
        path_join(options.package_dir@, "nexus-artifact"@),
        "bytecode"@,
    )
}

/// `std::path::Path::exists`: whether the path names something on disk. Nothing is claimed
/// of the result: it depends on the file system.
#[verifier::external_body]
fn path_exists(path: &str) -> (r: bool) {
    std::path::Path::new(path).exists()
}

/// The plan for options whose package directory was found (or not): a missing directory is
/// the error, else the plan of the options and the `Move.toml` text.
pub fn plan_build(options: BuildOptions, move_toml_contents: &str, package_dir_exists: bool) -> (r:
    Result<BuildPlan, BuildError>)
    ensures
        !package_dir_exists ==> (r matches Err(BuildError::PackageDirMissing(d)) && d@
            == options.package_dir@),
        package_dir_exists ==> (r matches Ok(plan) && plan_matches(plan, options, move_toml_contents@)),
{
    if !package_dir_exists {
        return Err(BuildError::PackageDirMissing(options.package_dir.clone()));
    }
    let move_toml = inspect_move_toml(move_toml_contents);
    let artifact_layout = BuildArtifactLayout::for_package_dir(options.package_dir.as_str());
    Ok(BuildPlan { artifact_layout, move_toml, options })
}

/// Plans a build: the package directory must exist.
pub fn make_build_plan(options: BuildOptions, move_toml_contents: &str) -> (r: Result<
    BuildPlan,
    BuildError,
>)
    ensures
        r matches Err(e) ==> (e matches BuildError::PackageDirMissing(d) && d@
            == options.package_dir@),
        r matches Ok(plan) ==> plan_matches(plan, options, move_toml_contents@),
{
    let exists = path_exists(options.package_dir.as_str());
    plan_build(options, move_toml_contents, exists)
}

// ── Metadata and manifests ──────────────────────────────────────────────

/// The modules' bytecode, one after the other.
pub open spec fn package_bytes(ms: Seq<CompiledModule>) -> Seq<u8>
    decreases ms.len(),
{
    if ms.len() == 0 {
        Seq::empty()
    } else {
        package_bytes(ms.drop_last()) + ms.last().bytes@
    }
}

fn concat_module_bytes(modules: &Vec<CompiledModule>) -> (r: Vec<u8>)
    ensures
        r@ == package_bytes(modules@),
{
    let mut out: Vec<u8> = Vec::new();
    let mut i: usize = 0;
    while i < modules.len()
        invariant
            i <= modules@.len(),
            out@ == package_bytes(modules@.take(i as int)),
        decreases modules@.len() - i,
    {
        crate::text::extend_bytes(&mut out, modules[i].bytes.as_slice());
        assert(modules@.take(i as int + 1).drop_last() =~= modules@.take(i as int));
        i += 1;
    }
    assert(modules@.take(modules@.len() as int) =~= modules@);
    out
}

/// The metadata of a compiled package for a deployer: the hash of all bytecode, each
/// module's hash, the named addresses, a zero ABI hash, version 1.
pub open spec fn metadata_of(m: PackageMetadata, c: CompiledPackage, deployer: AccountAddress) -> bool {
    &&& m.name == c.package_name
    &&& m.package_hash@ == blake3_digest(package_bytes(c.modules@))
    &&& m.named_addresses@.len() == c.named_addresses@.len()
    &&& forall|i: int|
        0 <= i < c.named_addresses@.len() ==> #[trigger] m.named_addresses@[i] == (
            c.named_addresses@[i].name,
            c.named_addresses@[i].address,
        )
    &&& m.module_hashes@.len() == c.modules@.len()
    &&& forall|i: int|
        0 <= i < c.modules@.len() ==> (#[trigger] m.module_hashes@[i]).0 == c.modules@[i].name
            && m.module_hashes@[i].1@ == blake3_digest(c.modules@[i].bytes@)
    &&& m.abi_hash@ == Seq::new(32, |i: int| 0u8)
    &&& m.upgrade_policy == c.upgrade_policy
    &&& m.deployer == deployer
    &&& m.version == 1
}

/// The metadata recorded for a compiled package.
pub fn build_package_metadata(compiled: &CompiledPackage, deployer: AccountAddress) -> (r:
    PackageMetadata)
    ensures
        metadata_of(r, *compiled, deployer),
{
    let all = concat_module_bytes(&compiled.modules);
    let package_hash = blake3_hash(all.as_slice());
    let mut module_hashes: Vec<(String, HashValue)> = Vec::new();
    let mut i: usize = 0;
    while i < compiled.modules.len()
        invariant
            i <= compiled.modules@.len(),
            module_hashes@.len() == i,
            forall|k: int|
                0 <= k < i ==> (#[trigger] module_hashes@[k]).0 == compiled.modules@[k].name
                    && module_hashes@[k].1@ == blake3_digest(compiled.modules@[k].bytes@),
        decreases compiled.modules@.len() - i,
    {
        let m = &compiled.modules[i];
        module_hashes.push((m.name.clone(), blake3_hash(m.bytes.as_slice())));
        i += 1;
    }
    let mut named: Vec<(String, AccountAddress)> = Vec::new();
    let mut j: usize = 0;
    while j < compiled.named_addresses.len()
        invariant
            j <= compiled.named_addresses@.len(),
            named@.len() == j,
            forall|k: int|
                0 <= k < j ==> #[trigger] named@[k] == (
                    compiled.named_addresses@[k].name,
                    compiled.named_addresses@[k].address,
                ),
        decreases compiled.named_addresses@.len() - j,
    {
        let a = &compiled.named_addresses[j];
        named.push((a.name.clone(), a.address));
        j += 1;
    }
    let zero = [0u8; 32];
    assert(zero@ =~= Seq::new(32, |i: int| 0u8));
    PackageMetadata {
        name: compiled.package_name.clone(),
        package_hash,
        named_addresses: named,
        module_hashes,
        abi_hash: zero,
        upgrade_policy: compiled.upgrade_policy,
        deployer,
        version: 1,
    }
}

/// The name of a policy as it is printed.
pub open spec fn policy_name(p: UpgradePolicy) -> Seq<char> {
    match p {
        UpgradePolicy::Immutable => "Immutable"@,
        UpgradePolicy::Compatible => "Compatible"@,
        UpgradePolicy::GovernanceOnly => "GovernanceOnly"@,
    }
}

fn policy_text(p: UpgradePolicy) -> (r: String)
    ensures
        r@ == policy_name(p),
{
    match p {
        UpgradePolicy::Immutable => "Immutable".to_owned(),
        UpgradePolicy::Compatible => "Compatible".to_owned(),
        UpgradePolicy::GovernanceOnly => "GovernanceOnly".to_owned(),
    }
}

/// The total bytecode size, saturating at the largest `usize` (which modules held in memory
/// cannot reach).
pub open spec fn total_bytecode(ms: Seq<CompiledModule>) -> usize
    decreases ms.len(),
{
    if ms.len() == 0 {
        0
    } else {
        let before = total_bytecode(ms.drop_last());
        if before + ms.last().bytes@.len() <= usize::MAX {
            (before + ms.last().bytes@.len()) as usize
        } else {
            usize::MAX
        }
    }
}

/// The manifest of a compiled package: names, sizes and lowercase hex BLAKE3 hashes.
pub open spec fn manifest_of(a: ArtifactManifest, c: CompiledPackage) -> bool {
    &&& a.package_name == c.package_name
    &&& a.package_hash@ == hex_lower(blake3_digest(package_bytes(c.modules@)))
    &&& a.module_count == c.modules@.len()
    &&& a.total_bytecode_bytes == total_bytecode(c.modules@)
    &&& a.upgrade_policy@ == policy_name(c.upgrade_policy)
    &&& a.modules@.len() == c.modules@.len()
    &&& forall|i: int|
        0 <= i < c.modules@.len() ==> (#[trigger] a.modules@[i]).name == c.modules@[i].name
            && a.modules@[i].size_bytes == c.modules@[i].bytes@.len() && a.modules@[i].blake3@
            == hex_lower(blake3_digest(c.modules@[i].bytes@))
}

/// The manifest written with a compiled package.
pub fn build_artifact_manifest(compiled: &CompiledPackage) -> (r: ArtifactManifest)
    ensures
        manifest_of(r, *compiled),
{
    let all = concat_module_bytes(&compiled.modules);
    let package_hash = blake3_hash(all.as_slice());
    let mut modules: Vec<ArtifactModule> = Vec::new();
    let mut total: usize = 0;
    let mut i: usize = 0;
    while i < compiled.modules.len()
        invariant
            i <= compiled.modules@.len(),
            modules@.len() == i,
            total == total_bytecode(compiled.modules@.take(i as int)),
            forall|k: int|
                0 <= k < i ==> (#[trigger] modules@[k]).name == compiled.modules@[k].name
                    && modules@[k].size_bytes == compiled.modules@[k].bytes@.len()
                    && modules@[k].blake3@ == hex_lower(blake3_digest(compiled.modules@[k].bytes@)),
        decreases compiled.modules@.len() - i,
    {
        let m = &compiled.modules[i];
        let hash = blake3_hash(m.bytes.as_slice());
        modules.push(
            ArtifactModule {
                name: m.name.clone(),
                size_bytes: m.bytes.len(),
                blake3: hex_string(hash.as_slice()),
            },
        );
        let len = m.bytes.len();
        total = if total <= usize::MAX - len {
            total + len
        } else {
            usize::MAX
        };
        assert(compiled.modules@.take(i as int + 1).drop_last() =~= compiled.modules@.take(i as int));
        i += 1;
    }
    assert(compiled.modules@.take(compiled.modules@.len() as int) =~= compiled.modules@);
    ArtifactManifest {
        package_name: compiled.package_name.clone(),
        package_hash: hex_string(package_hash.as_slice()),
        module_count: compiled.modules.len(),
        total_bytecode_bytes: total,
        upgrade_policy: policy_text(compiled.upgrade_policy),
        modules,
    }
}

/// Compiles with the backend, then derives the metadata (deployed by the zero address) and
/// the manifest; a compile that produces no modules fails.
pub fn orchestrate_build<B: CompileBackend>(backend: &B, plan: &BuildPlan) -> (r: Result<
    (CompiledPackage, PackageMetadata, ArtifactManifest),
    BuildError,
>)
    ensures
        r matches Ok((c, m, a)) ==> {
            &&& backend.compiles(*plan, Ok(c))
            &&& c.modules@.len() > 0
            &&& metadata_of(m, c, m.deployer)
            &&& m.deployer@ == Seq::new(32, |i: int| 0u8)
            &&& manifest_of(a, c)
        },
        r matches Err(e) ==> {
            ||| backend.compiles(*plan, Err(e))
            ||| (e == BuildError::NoModulesProduced && exists|c: CompiledPackage|
                #[trigger] backend.compiles(*plan, Ok(c)) && c.modules@.len() == 0)
        },
{
    let compiled = backend.compile(plan)?;
    if compiled.modules.len() == 0 {
        return Err(BuildError::NoModulesProduced);
    }
    let zero = AccountAddress::zero();
    let metadata = build_package_metadata(&compiled, zero);
    let manifest = build_artifact_manifest(&compiled);
    Ok((compiled, metadata, manifest))
}

// ── Backends ────────────────────────────────────────────────────────────

fn copy_module(m: &CompiledModule) -> (r: CompiledModule)
    ensures
        r.name == m.name,
        r.bytes@ == m.bytes@,
{
    CompiledModule { name: m.name.clone(), bytes: crate::text::bytes_to_vec(m.bytes.as_slice()) }
}

/// The modules ordered by name; modules of equal name keep their order.
pub fn sort_modules_by_name(modules: &Vec<CompiledModule>) -> (r: Vec<CompiledModule>)
    ensures
        r@.len() == modules@.len(),
        forall|k: int|
            0 <= k < r@.len() ==> {
                let i = stable_order(
                    modules@.map_values(|m: CompiledModule| text_bytes(m.name)),
                    modules@.len(),
                )[k] as int;
                &&& 0 <= i < modules@.len()
                &&& (#[trigger] r@[k]).name == modules@[i].name
                &&& r@[k].bytes@ == modules@[i].bytes@
            },
{
    let ghost names = modules@.map_values(|m: CompiledModule| text_bytes(m.name));
    let mut keys: Vec<Vec<u8>> = Vec::new();
    let mut i: usize = 0;
    while i < modules.len()
        invariant
            i <= modules@.len(),
            names == modules@.map_values(|m: CompiledModule| text_bytes(m.name)),
            byte_views(keys@) == names.take(i as int),
        decreases modules@.len() - i,
    {
        let ghost kb = byte_views(keys@);
        let k = string_bytes(&modules[i].name);
        keys.push(k);
        assert(byte_views(keys@) =~= kb.push(k@));
        assert(names.take(i as int + 1) =~= names.take(i as int).push(names[i as int]));
        i += 1;
    }
    assert(names.take(modules@.len() as int) =~= names);
    let order = stable_sort_indices(&keys);
    let mut out: Vec<CompiledModule> = Vec::new();
    let mut j: usize = 0;
    while j < order.len()
        invariant
            j <= order@.len(),
            order@.len() == modules@.len(),
            order@ == stable_order(names, modules@.len()),
            forall|k: int| 0 <= k < order@.len() ==> #[trigger] order@[k] < modules@.len(),
            out@.len() == j,
            forall|k: int|
                0 <= k < j ==> (#[trigger] out@[k]).name == modules@[order@[k] as int].name
                    && out@[k].bytes@ == modules@[order@[k] as int].bytes@,
        decreases order@.len() - j,
    {
        let idx = order[j];
        out.push(copy_module(&modules[idx]));
        j += 1;
    }
    out
}

/// Where precompiled bytecode is read from: the configured directory, else
/// `nexus-artifact/bytecode` under the package.
pub fn precompiled_bytecode_dir(configured: &Option<String>, plan: &BuildPlan) -> (r: String)
    ensures
        match configured {
            Some(d) => r@ == d@,
            None => r@ == path_join(
                path_join(plan.artifact_layout.package_dir@, "nexus-artifact"@),
                "bytecode"@,
            ),
        },
{
    match configured {
        Some(d) => d.clone(),
        None => {
            let artifact = join_path(&plan.artifact_layout.package_dir, "nexus-artifact");
            join_path(&artifact, DEFAULT_BYTECODE_DIR)
        },
    }
}

/// The package name from `Move.toml`, or `unknown`.
pub open spec fn package_name_or_unknown(r: CompiledPackage, plan: BuildPlan) -> bool {
    match plan.move_toml.package_name {
        Some(n) => r.package_name == n,
        None => r.package_name@ == "unknown"@,
    }
}

/// A compiled package for a plan: the package name from `Move.toml` (`unknown` without
/// one), its policy, the merged named addresses, and the given modules.
pub fn assemble_package(plan: &BuildPlan, modules: Vec<CompiledModule>) -> (r: CompiledPackage)
    ensures
        package_name_or_unknown(r, *plan),
        r.upgrade_policy == plan.move_toml.upgrade_policy,
        assignments_view(r.named_addresses@) == merge_all(
            assignments_view(plan.move_toml.named_addresses@),
            assignments_view(plan.options.named_addresses@),
        ),
        r.modules == modules,
{
    let package_name = match &plan.move_toml.package_name {
        Some(n) => n.clone(),
        None => "unknown".to_owned(),
    };
    CompiledPackage {
        package_name,
        upgrade_policy: plan.move_toml.upgrade_policy,
        named_addresses: merged_named_addresses(plan),
        modules,
    }
}

/// The package a workspace build produced: no modules is `NoModulesProduced`; else the
/// modules ordered by name (equal names keep their order), the package named by `Move.toml`
/// or, without a name there, after its directory, its policy and the merged named addresses.
pub fn workspace_build_package(plan: &BuildPlan, modules: &Vec<CompiledModule>, dir_name: &str) -> (r:
    Result<CompiledPackage, BuildError>)
    ensures
        modules@.len() == 0 ==> r == Err::<CompiledPackage, BuildError>(BuildError::NoModulesProduced),
        modules@.len() > 0 ==> r is Ok,
        r matches Ok(p) ==> {
            &&& (match plan.move_toml.package_name {
                Some(n) => p.package_name == n,
                None => p.package_name@ == dir_name@,
            })
            &&& p.upgrade_policy == plan.move_toml.upgrade_policy
            &&& assignments_view(p.named_addresses@) == merge_all(
                assignments_view(plan.move_toml.named_addresses@),
                assignments_view(plan.options.named_addresses@),
            )
            &&& p.modules@.len() == modules@.len()
            &&& forall|k: int|
                0 <= k < p.modules@.len() ==> {
                    let i = stable_order(
                        modules@.map_values(|m: CompiledModule| text_bytes(m.name)),
                        modules@.len(),
                    )[k] as int;
                    &&& (#[trigger] p.modules@[k]).name == modules@[i].name
                    &&& p.modules@[k].bytes@ == modules@[i].bytes@
                }
        },
{
    if modules.len() == 0 {
        return Err(BuildError::NoModulesProduced);
    }
    let mut package = precompiled_package(plan, modules);
    if plan.move_toml.package_name.is_none() {
        package.package_name = dir_name.to_owned();
    }
    Ok(package)
}

/// The `sources` directory of the package: missing, it is the error.
pub fn native_sources_dir(plan: &BuildPlan, sources_exist: bool) -> (r: Result<String, BuildError>)
    ensures
        sources_exist ==> (r matches Ok(d) && d@ == path_join(plan.options.package_dir@, "sources"@)),
        !sources_exist ==> (r matches Err(BuildError::PackageDirMissing(d)) && d@ == path_join(
            plan.options.package_dir@,
            "sources"@,
        )),
{
    let dir = join_path(&plan.options.package_dir, "sources");
    if sources_exist {
        Ok(dir)
    } else {
        Err(BuildError::PackageDirMissing(dir))
    }
}

/// Finds the package's `sources` directory on disk: missing, it is the error.
pub fn locate_native_sources(plan: &BuildPlan) -> (r: Result<String, BuildError>)
    ensures
        r matches Ok(d) ==> d@ == path_join(plan.options.package_dir@, "sources"@),
        r matches Err(e) ==> (e matches BuildError::PackageDirMissing(d) && d@ == path_join(
            plan.options.package_dir@,
            "sources"@,
        )),
{
    let dir = join_path(&plan.options.package_dir, "sources");
    let exists = path_exists(dir.as_str());
    native_sources_dir(plan, exists)
}

/// The package of modules read from a bytecode directory: the modules ordered by name, and
/// the rest as `assemble_package` gives it.
pub fn precompiled_package(plan: &BuildPlan, modules: &Vec<CompiledModule>) -> (r: CompiledPackage)
    ensures
        package_name_or_unknown(r, *plan),
        r.upgrade_policy == plan.move_toml.upgrade_policy,
        assignments_view(r.named_addresses@) == merge_all(
            assignments_view(plan.move_toml.named_addresses@),
            assignments_view(plan.options.named_addresses@),
        ),
        r.modules@.len() == modules@.len(),
        forall|k: int|
            0 <= k < r.modules@.len() ==> {
                let i = stable_order(
                    modules@.map_values(|m: CompiledModule| text_bytes(m.name)),
                    modules@.len(),
                )[k] as int;
                &&& (#[trigger] r.modules@[k]).name == modules@[i].name
                &&& r.modules@[k].bytes@ == modules@[i].bytes@
            },
{
    let sorted = sort_modules_by_name(modules);
    assemble_package(plan, sorted)
}

/// Loads precompiled `.mv` files: from the configured directory, or from
/// `nexus-artifact/bytecode` under the package.
pub struct PrecompiledBackend {
    bytecode_dir: Option<String>,
}

impl PrecompiledBackend {
    /// The configured directory, if any.
    pub closed spec fn configured_dir(&self) -> Option<String> {
        self.bytecode_dir
    }

    /// A backend that finds the bytecode through the plan's layout.
    pub fn new() -> (r: Self)
        ensures
            r.configured_dir() is None,
    {
        PrecompiledBackend { bytecode_dir: None }
    }

    /// A backend with an explicit bytecode directory.
    pub fn with_dir(bytecode_dir: String) -> (r: Self)
        ensures
            r.configured_dir() == Some(bytecode_dir),
    {
        PrecompiledBackend { bytecode_dir: Some(bytecode_dir) }
    }

    /// Where this backend reads bytecode for a plan.
    pub fn bytecode_dir(&self, plan: &BuildPlan) -> (r: String)
        ensures
            match self.configured_dir() {
                Some(d) => r@ == d@,
                None => r@ == path_join(
                    path_join(plan.artifact_layout.package_dir@, "nexus-artifact"@),
                    "bytecode"@,
                ),
            },
    {
        precompiled_bytecode_dir(&self.bytecode_dir, plan)
    }
}

impl Default for PrecompiledBackend {
    fn default() -> (r: Self)
        ensures
            r.configured_dir() is None,
    {
        PrecompiledBackend::new()
    }
}

/// Compiles Move sources with the native compiler, with extra source and bytecode
/// dependency directories.
pub struct NativeCompileBackend {
    stdlib_dirs: Vec<String>,
    bytecode_dep_dirs: Vec<String>,
}

impl NativeCompileBackend {
    pub closed spec fn spec_stdlib_dirs(&self) -> Seq<String> {
        self.stdlib_dirs@
    }

    pub closed spec fn spec_bytecode_dep_dirs(&self) -> Seq<String> {
        self.bytecode_dep_dirs@
    }

    /// No extra dependency directories.
    pub fn new() -> (r: Self)
        ensures
            r.spec_stdlib_dirs().len() == 0,
            r.spec_bytecode_dep_dirs().len() == 0,
    {
        NativeCompileBackend { stdlib_dirs: Vec::new(), bytecode_dep_dirs: Vec::new() }
    }

    /// Extra stdlib source directories.
    pub fn with_stdlib_dirs(stdlib_dirs: Vec<String>) -> (r: Self)
        ensures
            r.spec_stdlib_dirs() == stdlib_dirs@,
            r.spec_bytecode_dep_dirs().len() == 0,
    {
        NativeCompileBackend { stdlib_dirs, bytecode_dep_dirs: Vec::new() }
    }

    /// Precompiled bytecode dependency directories.
    pub fn with_bytecode_deps(bytecode_dep_dirs: Vec<String>) -> (r: Self)
        ensures
            r.spec_stdlib_dirs().len() == 0,
            r.spec_bytecode_dep_dirs() == bytecode_dep_dirs@,
    {
        NativeCompileBackend { stdlib_dirs: Vec::new(), bytecode_dep_dirs }
    }

    pub fn stdlib_dirs(&self) -> (r: &Vec<String>)
        ensures
            r@ == self.spec_stdlib_dirs(),
    {
        &self.stdlib_dirs
    }

    pub fn bytecode_dep_dirs(&self) -> (r: &Vec<String>)
        ensures
            r@ == self.spec_bytecode_dep_dirs(),
    {
        &self.bytecode_dep_dirs
    }
}

impl Default for NativeCompileBackend {
    fn default() -> (r: Self)
        ensures
            r.spec_stdlib_dirs().len() == 0,
            r.spec_bytecode_dep_dirs().len() == 0,
    {
        NativeCompileBackend::new()
    }
}

/// `name=0x…` with the full 64-digit lowercase address.
pub open spec fn address_mapping_entry(a: NamedAddressAssignment) -> Seq<char> {
    a.name@ + "="@ + address_display(a.address@)
}

/// The compiler's named-address mapping: one `name=0x…` entry per assignment, in order.
pub fn named_address_mapping(list: &Vec<NamedAddressAssignment>) -> (r: Vec<String>)
    ensures
        r@.len() == list@.len(),
        forall|i: int| 0 <= i < list@.len() ==> #[trigger] r@[i]@ == address_mapping_entry(list@[i]),
{
    let mut out: Vec<String> = Vec::new();
    let mut i: usize = 0;
    while i < list.len()
        invariant
            i <= list@.len(),
            out@.len() == i,
            forall|k: int| 0 <= k < i ==> #[trigger] out@[k]@ == address_mapping_entry(list@[k]),
        decreases list@.len() - i,
    {
        let a = &list[i];
        let mut entry = a.name.clone();
        crate::text::push_chars(&mut entry, chars_of("=").as_slice());
        let shown = a.address.to_string();
        crate::text::push_chars(&mut entry, chars_of(shown.as_str()).as_slice());
        out.push(entry);
        i += 1;
    }
    out
}

/// `name=0x…` for each assignment, joined with commas.
pub open spec fn assignments_csv(s: Seq<NamedAddressAssignment>) -> Seq<char>
    decreases s.len(),
{
    if s.len() == 0 {
        Seq::empty()
    } else if s.len() == 1 {
        s[0].name@ + "="@ + address_display(s[0].address@)
    } else {
        assignments_csv(s.drop_last()) + ","@ + s.last().name@ + "="@ + address_display(
            s.last().address@,
        )
    }
}

/// The arguments of the command that builds a package with the wallet tool: the manifest,
/// the package directory, `--skip-fetch` when git dependencies are not fetched, and the
/// named addresses when there are any.
pub open spec fn build_args(manifest_path: Seq<char>, options: BuildOptions) -> Seq<Seq<char>> {
    seq![
        "run"@,
        "--manifest-path"@,
        manifest_path,
        "--bin"@,
        "nexus-wallet"@,
        "--"@,
        "move"@,
        "build"@,
        "--package-dir"@,
        options.package_dir@,
    ] + (if options.skip_fetch_latest_git_deps {
        seq!["--skip-fetch"@]
    } else {
        Seq::empty()
    }) + (if options.named_addresses@.len() > 0 {
        seq!["--named-addresses"@, assignments_csv(options.named_addresses@)]
    } else {
        Seq::empty()
    })
}

pub open spec fn strings_view(v: Seq<String>) -> Seq<Seq<char>> {
    v.map_values(|s: String| s@)
}

/// The command-line arguments of a package build.
pub fn build_command_args(manifest_path: &str, options: &BuildOptions) -> (r: Vec<String>)
    ensures
        strings_view(r@) == build_args(manifest_path@, *options),
{
    let mut args: Vec<String> = Vec::new();
    args.push("run".to_owned());
    args.push("--manifest-path".to_owned());
    args.push(manifest_path.to_owned());
    args.push("--bin".to_owned());
    args.push("nexus-wallet".to_owned());
    args.push("--".to_owned());
    args.push("move".to_owned());
    args.push("build".to_owned());
    args.push("--package-dir".to_owned());
    args.push(options.package_dir.clone());
    if options.skip_fetch_latest_git_deps {
        args.push("--skip-fetch".to_owned());
    }
    if options.named_addresses.len() > 0 {
        let list = &options.named_addresses;
        let mut csv = String::new();
        let mut i: usize = 0;
        while i < list.len()
            invariant
                i <= list@.len(),
                csv@ == assignments_csv(list@.take(i as int)),
            decreases list@.len() - i,
        {
            if i > 0 {
                crate::text::push_chars(&mut csv, chars_of(",").as_slice());
            }
            let a = &list[i];
            crate::text::push_chars(&mut csv, chars_of(a.name.as_str()).as_slice());
            crate::text::push_chars(&mut csv, chars_of("=").as_slice());
            let shown = a.address.to_string();
            crate::text::push_chars(&mut csv, chars_of(shown.as_str()).as_slice());
            proof {
                let t = list@.take(i as int + 1);
                assert(t.drop_last() =~= list@.take(i as int));
                assert(t.last() == list@[i as int]);
                if i == 0 {
                    assert(t.len() == 1);
                    assert(t[0] == list@[0]);
                }
            }
            i += 1;
        }
        assert(list@.take(list@.len() as int) =~= list@);
        args.push("--named-addresses".to_owned());
        args.push(csv);
    }
    assert(strings_view(args@) =~= build_args(manifest_path@, *options));
    args
}

/// Whether an assignment list names `std`.
pub open spec fn names_std(list: Seq<(Seq<char>, Seq<u8>)>) -> bool {
    exists|i: int| 0 <= i < list.len() && (#[trigger] list[i]).0 == "std"@
}

fn has_std(list: &Vec<NamedAddressAssignment>) -> (r: bool)
    ensures
        r == names_std(assignments_view(list@)),
{
    let ghost v = assignments_view(list@);
    let mut i: usize = 0;
    while i < list.len()
        invariant
            i <= list@.len(),
            v == assignments_view(list@),
            forall|k: int| 0 <= k < i ==> (#[trigger] v[k]).0 != "std"@,
        decreases list@.len() - i,
    {
        if chars_equal(&chars_of(list[i].name.as_str()), "std") {
            assert(v[i as int].0 == "std"@);
            return true;
        }
        i += 1;
    }
    false
}

/// Adds `std = 0x1` to the options' named addresses unless the options or `Move.toml`
/// already name `std`: the framework modules live there.
pub fn add_std_address_if_missing(options: &mut BuildOptions, move_toml_contents: &str)
    ensures
        final(options).package_dir == old(options).package_dir,
        final(options).skip_fetch_latest_git_deps == old(options).skip_fetch_latest_git_deps,
        final(options).known_attributes == old(options).known_attributes,
        ({
            let m = toml_scan(move_toml_contents@, toml_init());
            let from_toml = if m.4.len() == 0 {
                m.3
            } else {
                m.4
            };
            let before = assignments_view(old(options).named_addresses@);
            if names_std(before) || names_std(from_toml) {
                assignments_view(final(options).named_addresses@) == before
            } else {
                assignments_view(final(options).named_addresses@) == before.push(
                    ("std"@, crate::stdlib::framework_address_view()),
                )
            }
        }),
{
    let info = inspect_move_toml(move_toml_contents);
    if has_std(&options.named_addresses) || has_std(&info.named_addresses) {
        return;
    }
    let ghost before = options.named_addresses@;
    let std_address = AccountAddress(crate::stdlib::framework_address_bytes());
    options.named_addresses.push(NamedAddressAssignment { name: "std".to_owned(), address: std_address });
    assert(assignments_view(options.named_addresses@) =~= assignments_view(before).push(
        ("std"@, crate::stdlib::framework_address_view()),
    ));
}

/// The `--named-addresses` text of one assignment: `name=0x…`.
pub open spec fn assignment_text(a: NamedAddressAssignment) -> Seq<char> {
    a.name@ + "="@ + address_display(a.address@)
}

/// A single assignment is listed as `name=0x…`.
pub proof fn law_assignments_csv_single(a: NamedAddressAssignment)
    ensures
        assignments_csv(seq![a]) == assignment_text(a),
{
}

/// The list of two runs of assignments is the list of the first, a comma, and the list of
/// the second: every assignment is listed, in order, each once.
pub proof fn law_assignments_csv_concat(s1: Seq<NamedAddressAssignment>, s2: Seq<NamedAddressAssignment>)
    requires
        s1.len() > 0,
        s2.len() > 0,
    ensures
        assignments_csv(s1 + s2) == assignments_csv(s1) + ","@ + assignments_csv(s2),
    decreases s2.len(),
{
    let s = s1 + s2;
    assert(s.drop_last() =~= s1 + s2.drop_last());
    assert(s.last() == s2.last());
    if s2.len() == 1 {
        assert(s2.drop_last() =~= Seq::<NamedAddressAssignment>::empty());
        assert(s.drop_last() =~= s1);
        assert(s2[0] == s2.last());
        assert(assignments_csv(s) =~= assignments_csv(s1) + ","@ + assignments_csv(s2));
    } else {
        law_assignments_csv_concat(s1, s2.drop_last());
        assert(assignments_csv(s) =~= assignments_csv(s1) + ","@ + assignments_csv(s2));
    }
}

/// The `--named-addresses` list grows with each added assignment by a comma and that
/// assignment's `name=0x…`.
pub proof fn law_assignments_csv_push(s: Seq<NamedAddressAssignment>, a: NamedAddressAssignment)
    requires
        s.len() > 0,
    ensures
        assignments_csv(s.push(a)) == assignments_csv(s) + ","@ + assignment_text(a),
{
    assert(s.push(a) =~= s + seq![a]);
    law_assignments_csv_concat(s, seq![a]);
    law_assignments_csv_single(a);
}

/// With named addresses, the build command ends with `--named-addresses` and the list of
/// all of them.
pub proof fn law_build_args_list_every_address(manifest_path: Seq<char>, options: BuildOptions)
    requires
        options.named_addresses@.len() > 0,
    ensures
        build_args(manifest_path, options).last() == assignments_csv(options.named_addresses@),
        build_args(manifest_path, options)[build_args(manifest_path, options).len() - 2]
            == "--named-addresses"@,
{
}

} // verus!
