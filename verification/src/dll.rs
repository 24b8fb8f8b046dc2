//! Staging the Sherpa-ONNX runtime libraries for a Windows bundle: which
//! directory entries count as runtime DLLs, in what order they are listed,
//! where they are looked for and in which order, and the names and address
//! of the prebuilt archive.
use vstd::prelude::*;
use vstd::string::*;

use crate::paths::{join_path, joined, PathStyle};
use vstd::utf8::{decode_utf8, valid_utf8};
use crate::text::{
    chars_of, contains_chars, ends_with_chars, has_infix, has_prefix, has_suffix, lemma_lex_le_total,
    lemma_lex_le_transitive, lex_le, lex_le_bytes, lower_seq, lowercase_chars,
    starts_with_chars,
};

verus! {

/// The Sherpa-ONNX release whose libraries are staged.
pub open spec fn sherpa_onnx_version() -> Seq<char> {
    "1.13.3"@
}

/// Where Sherpa-ONNX releases are published.
pub open spec fn release_base_url() -> Seq<char> {
    "https://github.com/k2-fsa/sherpa-onnx/releases/download"@
}

/// The directory name the prebuilt Windows libraries unpack to.
pub open spec fn archive_stem() -> Seq<char> {
    "sherpa-onnx-v"@ + sherpa_onnx_version() + "-win-x64-shared-MT-Release-lib"@
}

/// The file name of the prebuilt Windows library archive.
pub open spec fn archive_name() -> Seq<char> {
    archive_stem() + ".tar.bz2"@
}

/// The address the prebuilt archive is downloaded from.
pub open spec fn archive_url() -> Seq<char> {
    release_base_url() + "/v"@ + sherpa_onnx_version() + "/"@ + archive_name()
}

/// The directory name the prebuilt Windows libraries unpack to.
pub fn prebuilt_archive_stem() -> (r: String)
    ensures
        r@ == archive_stem(),
{
    String::from_str("sherpa-onnx-v").concat("1.13.3").concat("-win-x64-shared-MT-Release-lib")
}

/// The file name of the prebuilt Windows library archive.
pub fn prebuilt_archive_name() -> (r: String)
    ensures
        r@ == archive_name(),
{
    prebuilt_archive_stem().concat(".tar.bz2")
}

/// The address the prebuilt archive is downloaded from.
pub fn prebuilt_archive_url() -> (r: String)
    ensures
        r@ == archive_url(),
{
    let name = prebuilt_archive_name();
    String::from_str("https://github.com/k2-fsa/sherpa-onnx/releases/download").concat("/v").concat(
        "1.13.3",
    ).concat("/").concat(name.as_str())
}

/// One entry of a directory listing, as the staging logic sees it.
pub struct DirEntryInfo {
    /// The entry's file name as the platform stores it (its encoded bytes).
    pub name: Vec<u8>,
    /// The same file name as text, when it is valid UTF-8.
    pub utf8_name: Option<String>,
    /// The entry is a regular file (following symbolic links).
    pub is_file: bool,
}

/// The entry's text name is its byte name read as UTF-8, present exactly
/// when those bytes are valid UTF-8 (as `OsStr::to_str` gives it).
pub open spec fn name_agrees(e: DirEntryInfo) -> bool {
    match e.utf8_name {
        Some(n) => valid_utf8(e.name@) && decode_utf8(e.name@) == n@,
        None => !valid_utf8(e.name@),
    }
}

/// Every entry's text name agrees with its byte name.
pub open spec fn names_agree(entries: Seq<DirEntryInfo>) -> bool {
    forall|j: int| 0 <= j < entries.len() ==> name_agrees(#[trigger] entries[j])
}

/// The byte `.`.
pub open spec fn dot() -> u8 {
    46u8
}

/// ASCII lower-casing of one byte; every other byte is unchanged.
pub open spec fn ascii_lower_byte(b: u8) -> u8 {
    if 65 <= b && b <= 90 {
        (b + 32) as u8
    } else {
        b
    }
}

/// ASCII lower-casing of a byte string.
pub open spec fn lower_bytes(s: Seq<u8>) -> Seq<u8> {
    Seq::new(s.len(), |i: int| ascii_lower_byte(s[i]))
}

/// The bytes of `dll`.
pub open spec fn dll_bytes() -> Seq<u8> {
    seq![100u8, 108u8, 108u8]
}

/// The index of the last `.` among the first `n` bytes of `s`.
pub open spec fn last_dot_before(s: Seq<u8>, n: int) -> Option<int>
    decreases n,
{
    if n <= 0 {
        None
    } else if s[n - 1] == dot() {
        Some(n - 1)
    } else {
        last_dot_before(s, n - 1)
    }
}

/// The extension of a file name as `Path::extension` gives it: what follows
/// the last `.`, provided something precedes that `.`; none for `..`.
pub open spec fn file_extension(name: Seq<u8>) -> Option<Seq<u8>> {
    if name == seq![dot(), dot()] {
        None
    } else {
        match last_dot_before(name, name.len() as int) {
            Some(k) if k > 0 => Some(name.subrange(k + 1, name.len() as int)),
            _ => None,
        }
    }
}

/// The file name has the extension `dll`, in any ASCII letter case.
pub open spec fn has_dll_extension_spec(name: Seq<u8>) -> bool {
    match file_extension(name) {
        Some(e) => lower_bytes(e) == dll_bytes(),
        None => false,
    }
}

/// The entry is a DLL: a regular file with the extension `dll`.
pub open spec fn is_dll_entry(e: DirEntryInfo) -> bool {
    e.is_file && has_dll_extension_spec(e.name@)
}

/// A file name that belongs to the Sherpa-ONNX runtime: a `.dll` (any case)
/// whose lower-cased name mentions one of the runtime's components.
pub open spec fn is_sherpa_runtime_name(name: Seq<char>) -> bool {
    let l = lower_seq(name);
    &&& has_suffix(l, ".dll"@)
    &&& {
        ||| has_infix(l, "sherpa"@)
        ||| has_infix(l, "onnxruntime"@)
        ||| has_prefix(l, "kaldi"@)
        ||| has_infix(l, "kaldifst"@)
        ||| has_infix(l, "fst"@)
        ||| has_infix(l, "fbank"@)
        ||| has_infix(l, "kissfft"@)
        ||| has_infix(l, "piper"@)
        ||| has_infix(l, "espeak"@)
        ||| has_infix(l, "ssentencepiece"@)
        ||| has_infix(l, "ucd"@)
    }
}

/// The entry counts as a Sherpa-ONNX runtime library: a DLL whose name is
/// UTF-8 text and a runtime name.
pub open spec fn is_sherpa_entry(e: DirEntryInfo) -> bool {
    is_dll_entry(e) && (e.utf8_name matches Some(n) && is_sherpa_runtime_name(n@))
}

proof fn lemma_last_dot_before(s: Seq<u8>, n: int)
    requires
        0 <= n <= s.len(),
    ensures
        last_dot_before(s, n) matches Some(k) ==> 0 <= k < n && s[k] == dot() && forall|j: int|
            k < j < n ==> s[j] != dot(),
        last_dot_before(s, n) is None ==> forall|j: int| 0 <= j < n ==> s[j] != dot(),
    decreases n,
{
    if n > 0 && s[n - 1] != dot() {
        lemma_last_dot_before(s, n - 1);
    }
}

fn lower_byte(b: u8) -> (r: u8)
    ensures
        r == ascii_lower_byte(b),
{
    if 65 <= b && b <= 90 {
        b + 32
    } else {
        b
    }
}

/// Whether the file name has the extension `dll` in any ASCII letter case,
/// as `path.extension()` compared with `eq_ignore_ascii_case("dll")` decides it.
pub fn has_dll_extension(name: &Vec<u8>) -> (r: bool)
    ensures
        r == has_dll_extension_spec(name@),
{
    let n = name.len();
    let mut j: usize = n;
    while j > 0 && name[j - 1] != 46u8
        invariant
            n == name@.len(),
            j <= n,
            last_dot_before(name@, n as int) == last_dot_before(name@, j as int),
        decreases j,
    {
        j = j - 1;
    }
    proof {
        lemma_last_dot_before(name@, n as int);
    }
    if n == 2 && name[0] == 46u8 && name[1] == 46u8 {
        assert(name@ =~= seq![dot(), dot()]);
        return false;
    }
    assert(name@ != seq![dot(), dot()]) by {
        if name@ == seq![dot(), dot()] {
            assert(name@[0] == dot() && name@[1] == dot());
        }
    }
    assert(last_dot_before(name@, j as int) == if j == 0 {
        None::<int>
    } else {
        Some(j - 1)
    });
    if j <= 1 {
        assert(file_extension(name@) is None);
        return false;
    }
    let ghost e = name@.subrange(j as int, n as int);
    if n - j != 3 {
        assert(lower_bytes(e).len() != 3);
        assert(dll_bytes().len() == 3);
        return false;
    }
    let a = lower_byte(name[j]);
    let b = lower_byte(name[j + 1]);
    let c = lower_byte(name[j + 2]);
    assert(lower_bytes(e)[0] == a && lower_bytes(e)[1] == b && lower_bytes(e)[2] == c);
    if a == 100u8 && b == 108u8 && c == 108u8 {
        assert(lower_bytes(e) =~= dll_bytes());
        true
    } else {
        assert(lower_bytes(e) != dll_bytes()) by {
            if lower_bytes(e) == dll_bytes() {
                assert(lower_bytes(e)[0] == 100u8 && lower_bytes(e)[1] == 108u8 && lower_bytes(e)[2]
                    == 108u8);
            }
        }
        false
    }
}

/// Whether a file name belongs to the Sherpa-ONNX runtime: it must be UTF-8
/// (`None` stands for a name that is not) and, lower-cased, end in `.dll` and
/// mention one of the runtime's components.
pub fn is_sherpa_runtime_dll(file_name: Option<&str>) -> (r: bool)
    ensures
        r == match file_name {
            Some(n) => is_sherpa_runtime_name(n@),
            None => false,
        },
{
    let name = match file_name {
        Some(n) => n,
        None => return false,
    };
    let l = lowercase_chars(name);
    if !ends_with_chars(&l, &chars_of(".dll")) {
        return false;
    }
    contains_chars(&l, &chars_of("sherpa")) || contains_chars(&l, &chars_of("onnxruntime"))
        || starts_with_chars(&l, &chars_of("kaldi")) || contains_chars(&l, &chars_of("kaldifst"))
        || contains_chars(&l, &chars_of("fst")) || contains_chars(&l, &chars_of("fbank"))
        || contains_chars(&l, &chars_of("kissfft")) || contains_chars(&l, &chars_of("piper"))
        || contains_chars(&l, &chars_of("espeak")) || contains_chars(
        &l,
        &chars_of("ssentencepiece"),
    ) || contains_chars(&l, &chars_of("ucd"))
}

/// The entry's file name when it is valid UTF-8.
pub fn utf8_name(e: &DirEntryInfo) -> (r: Option<&str>)
    ensures
        match e.utf8_name {
            Some(n) => r matches Some(t) && t@ == n@,
            None => r is None,
        },
{
    match &e.utf8_name {
        Some(n) => Some(n.as_str()),
        None => None,
    }
}

/// The keys listed in ascending order.
pub open spec fn keys_sorted(ks: Seq<Seq<u8>>) -> bool {
    forall|a: int, b: int| 0 <= a < b < ks.len() ==> lex_le(#[trigger] ks[a], #[trigger] ks[b])
}

/// The names of the entries that `idx` points at.
pub open spec fn names_at(entries: Seq<DirEntryInfo>, idx: Seq<usize>) -> Seq<Seq<u8>> {
    idx.map_values(|k: usize| entries[k as int].name@)
}

/// The entries that `idx` points at, listed by file name (its bytes) in
/// ascending order, which is the order of their paths within the directory.
pub open spec fn sorted_by_name(entries: Seq<DirEntryInfo>, idx: Seq<usize>) -> bool {
    forall|a: int, b: int|
        0 <= a < b < idx.len() ==> lex_le(
            #[trigger] entries[idx[a] as int].name@,
            #[trigger] entries[idx[b] as int].name@,
        )
}

/// `idx` lists, once each, exactly the indices of the entries that satisfy `p`.
pub open spec fn lists_exactly(entries: Seq<DirEntryInfo>, idx: Seq<usize>, p: spec_fn(DirEntryInfo) -> bool) -> bool {
    &&& forall|k: int| 0 <= k < idx.len() ==> (#[trigger] idx[k]) < entries.len() && p(entries[idx[k] as int])
    &&& forall|a: int, b: int| 0 <= a < b < idx.len() ==> #[trigger] idx[a] != #[trigger] idx[b]
    &&& forall|j: int| 0 <= j < entries.len() && p(#[trigger] entries[j]) ==> idx.contains(j as usize)
}

proof fn lemma_insert_sorted(ks: Seq<Seq<u8>>, p: int, key: Seq<u8>)
    requires
        keys_sorted(ks),
        0 <= p <= ks.len(),
        forall|a: int| 0 <= a < p ==> lex_le(#[trigger] ks[a], key),
        p < ks.len() ==> !lex_le(ks[p], key),
    ensures
        keys_sorted(ks.insert(p, key)),
{
    let n = ks.insert(p, key);
    if p < ks.len() {
        lemma_lex_le_total(ks[p], key);
    }
    assert forall|a: int, b: int| 0 <= a < b < n.len() implies lex_le(#[trigger] n[a], #[trigger] n[b]) by {
        if b < p {
        } else if b == p {
        } else if a < p {
            assert(n[b] == ks[b - 1]);
            assert(lex_le(ks[a], ks[b - 1]));
        } else if a == p {
            assert(n[b] == ks[b - 1]);
            if b - 1 > p {
                assert(lex_le(ks[p], ks[b - 1]));
                lemma_lex_le_transitive(key, ks[p], ks[b - 1]);
            }
        } else {
            assert(n[a] == ks[a - 1] && n[b] == ks[b - 1]);
        }
    }
}

/// The indices of the DLLs among `entries`, ordered by file name, as listing
/// a directory's DLLs and sorting their paths gives them.
pub fn dlls_in_dir(entries: &Vec<DirEntryInfo>) -> (r: Vec<usize>)
    ensures
        lists_exactly(entries@, r@, |e: DirEntryInfo| is_dll_entry(e)),
        sorted_by_name(entries@, r@),
{
    let ghost p = |e: DirEntryInfo| is_dll_entry(e);
    let mut r: Vec<usize> = Vec::new();
    let mut i: usize = 0;
    while i < entries.len()
        invariant
            p == (|e: DirEntryInfo| is_dll_entry(e)),
            i <= entries@.len(),
            forall|k: int| 0 <= k < r@.len() ==> (#[trigger] r@[k]) < i && p(entries@[r@[k] as int]),
            forall|a: int, b: int| 0 <= a < b < r@.len() ==> #[trigger] r@[a] != #[trigger] r@[b],
            forall|j: int| 0 <= j < i && p(#[trigger] entries@[j]) ==> r@.contains(j as usize),
            keys_sorted(names_at(entries@, r@)),
        decreases entries@.len() - i,
    {
        let e = &entries[i];
        if e.is_file && has_dll_extension(&e.name) {
            assert(p(entries@[i as int]));
            let ghost ks = names_at(entries@, r@);
            let mut q: usize = 0;
            while q < r.len() && lex_le_bytes(&entries[r[q]].name, &e.name)
                invariant
                    q <= r@.len(),
                    ks == names_at(entries@, r@),
                    i < entries@.len(),
                    e == entries@[i as int],
                    forall|k: int| 0 <= k < r@.len() ==> (#[trigger] r@[k]) < i,
                    forall|a: int| 0 <= a < q ==> lex_le(#[trigger] ks[a], e.name@),
                decreases r@.len() - q,
            {
                q = q + 1;
            }
            proof {
                lemma_insert_sorted(ks, q as int, e.name@);
            }
            let ghost old_r = r@;
            r.insert(q, i);
            proof {
                assert(names_at(entries@, r@) =~= ks.insert(q as int, e.name@));
                assert forall|a: int, b: int| 0 <= a < b < r@.len() implies #[trigger] r@[a]
                    != #[trigger] r@[b] by {
                    if a < q && b > q {
                        assert(r@[b] == old_r[b - 1]);
                    } else if a > q {
                        assert(r@[a] == old_r[a - 1] && r@[b] == old_r[b - 1]);
                    } else if b == q {
                    } else if a == q {
                        assert(r@[b] == old_r[b - 1]);
                    }
                }
                assert forall|j: int| 0 <= j < i + 1 && p(#[trigger] entries@[j]) implies r@.contains(
                    j as usize,
                ) by {
                    if j == i {
                        assert(r@[q as int] == i);
                    } else {
                        let k = choose|k: int| 0 <= k < old_r.len() && old_r[k] == j as usize;
                        if k < q {
                            assert(r@[k] == j as usize);
                        } else {
                            assert(r@[k + 1] == j as usize);
                        }
                    }
                }
            }
        }
        i = i + 1;
    }
    proof {
        let ks = names_at(entries@, r@);
        assert forall|a: int, b: int| 0 <= a < b < r@.len() implies lex_le(
            #[trigger] entries@[r@[a] as int].name@,
            #[trigger] entries@[r@[b] as int].name@,
        ) by {
            assert(ks[a] == entries@[r@[a] as int].name@ && ks[b] == entries@[r@[b] as int].name@);
        }
    }
    r
}

/// The indices of the Sherpa-ONNX runtime libraries among `entries`, ordered
/// by file name: the DLLs of the directory whose name is a runtime name.
pub fn sherpa_dlls_in_dir(entries: &Vec<DirEntryInfo>) -> (r: Vec<usize>)
    requires
        names_agree(entries@),
    ensures
        lists_exactly(entries@, r@, |e: DirEntryInfo| is_sherpa_entry(e)),
        sorted_by_name(entries@, r@),
{
    let count = entries.len();
    let all = dlls_in_dir(entries);
    let ghost p = |e: DirEntryInfo| is_sherpa_entry(e);
    let ghost q = |e: DirEntryInfo| is_dll_entry(e);
    let mut r: Vec<usize> = Vec::new();
    let ghost mut pos: Seq<int> = Seq::empty();
    let mut k: usize = 0;
    while k < all.len()
        invariant
            p == (|e: DirEntryInfo| is_sherpa_entry(e)),
            q == (|e: DirEntryInfo| is_dll_entry(e)),
            lists_exactly(entries@, all@, q),
            sorted_by_name(entries@, all@),
            k <= all@.len(),
            pos.len() == r@.len(),
            forall|m: int| 0 <= m < r@.len() ==> 0 <= #[trigger] pos[m] < k && r@[m] == all@[pos[m]],
            forall|a: int, b: int| 0 <= a < b < r@.len() ==> #[trigger] pos[a] < #[trigger] pos[b],
            forall|m: int| 0 <= m < r@.len() ==> (#[trigger] r@[m]) < entries@.len() && p(entries@[r@[m] as int]),
            forall|t: int| 0 <= t < k && p(entries@[(#[trigger] all@[t]) as int]) ==> r@.contains(all@[t]),
        decreases all@.len() - k,
    {
        let j = all[k];
        assert(q(entries@[j as int]));
        let keep = is_sherpa_runtime_dll(utf8_name(&entries[j]));
        if keep {
            assert(p(entries@[j as int]));
            let ghost old_r = r@;
            r.push(j);
            proof {
                pos = pos.push(k as int);
                assert forall|t: int| 0 <= t < k + 1 && p(entries@[(#[trigger] all@[t]) as int]) implies r@.contains(
                    all@[t],
                ) by {
                    if t == k {
                        assert(r@[r@.len() - 1] == all@[t]);
                    } else {
                        let m = choose|m: int| 0 <= m < old_r.len() && old_r[m] == all@[t];
                        assert(r@[m] == all@[t]);
                    }
                }
            }
        } else {
            assert(!p(entries@[j as int]));
        }
        k = k + 1;
    }
    proof {
        assert(count == entries@.len());
        assert forall|a: int, b: int| 0 <= a < b < r@.len() implies lex_le(
            #[trigger] entries@[r@[a] as int].name@,
            #[trigger] entries@[r@[b] as int].name@,
        ) by {
            assert(pos[a] < pos[b]);
            assert(lex_le(entries@[all@[pos[a]] as int].name@, entries@[all@[pos[b]] as int].name@));
        }
        assert forall|a: int, b: int| 0 <= a < b < r@.len() implies #[trigger] r@[a] != #[trigger] r@[b] by {
            assert(pos[a] < pos[b]);
            assert(all@[pos[a]] != all@[pos[b]]);
        }
        assert forall|j: int| 0 <= j < entries@.len() && p(#[trigger] entries@[j]) implies r@.contains(j as usize) by {
            assert(q(entries@[j]));
            assert(all@.contains(j as usize));
            let t = choose|t: int| 0 <= t < all@.len() && all@[t] == j as usize;
            assert(all@[t] as int == j);
            assert(p(entries@[all@[t] as int]));
        }
    }
    r
}

/// Libraries are staged only when building for Windows.
pub fn should_stage(target_os: &str) -> (r: bool)
    ensures
        r == (target_os@ == "windows"@),
{
    String::from_str(target_os).eq(&String::from_str("windows"))
}

/// The build directory of the whole workspace, two levels above the crate.
pub open spec fn workspace_target_path(style: PathStyle, manifest: Seq<char>, target: Seq<char>, profile: Seq<char>) -> Seq<char> {
    joined(
        style,
        joined(style, joined(style, joined(style, joined(style, manifest, ".."@), ".."@), "target"@), target),
        profile,
    )
}

/// The build directory of the crate itself.
pub open spec fn crate_target_path(style: PathStyle, manifest: Seq<char>, target: Seq<char>, profile: Seq<char>) -> Seq<char> {
    joined(style, joined(style, joined(style, manifest, "target"@), target), profile)
}

/// The build directory of the whole workspace for this target and profile.
pub fn workspace_target_dir(style: PathStyle, manifest_dir: &str, target: &str, profile: &str) -> (r: String)
    ensures
        r@ == workspace_target_path(style, manifest_dir@, target@, profile@),
{
    let a = join_path(style, manifest_dir, "..");
    let b = join_path(style, a.as_str(), "..");
    let c = join_path(style, b.as_str(), "target");
    let d = join_path(style, c.as_str(), target);
    join_path(style, d.as_str(), profile)
}

/// The build directory of the crate for this target and profile.
pub fn crate_target_dir(style: PathStyle, manifest_dir: &str, target: &str, profile: &str) -> (r: String)
    ensures
        r@ == crate_target_path(style, manifest_dir@, target@, profile@),
{
    let a = join_path(style, manifest_dir, "target");
    let b = join_path(style, a.as_str(), target);
    join_path(style, b.as_str(), profile)
}

/// The build directory to look in: the workspace's when it exists, else the
/// crate's when that exists, else none. `workspace_is_dir` and
/// `crate_is_dir` tell whether the directories that `workspace_target_dir`
/// and `crate_target_dir` name exist.
pub fn target_dir_from_manifest(
    style: PathStyle,
    manifest_dir: &str,
    target: &str,
    profile: &str,
    workspace_is_dir: bool,
    crate_is_dir: bool,
) -> (r: Option<String>)
    ensures
        workspace_is_dir ==> (r matches Some(d) && d@ == workspace_target_path(
            style,
            manifest_dir@,
            target@,
            profile@,
        )),
        !workspace_is_dir && crate_is_dir ==> (r matches Some(d) && d@ == crate_target_path(
            style,
            manifest_dir@,
            target@,
            profile@,
        )),
        !workspace_is_dir && !crate_is_dir ==> r is None,
{
    if workspace_is_dir {
        Some(workspace_target_dir(style, manifest_dir, target, profile))
    } else if crate_is_dir {
        Some(crate_target_dir(style, manifest_dir, target, profile))
    } else {
        None
    }
}

/// The build directory that holds the prebuilt cache: the release one when
/// it exists, else the debug one.
pub fn prebuilt_target_root(release: Option<String>, debug: Option<String>) -> (r: Option<String>)
    ensures
        r == (if release is Some {
            release
        } else {
            debug
        }),
{
    match release {
        Some(d) => Some(d),
        None => debug,
    }
}

/// The cache of unpacked prebuilt archives inside a build directory.
pub open spec fn prebuilt_cache_root_path(style: PathStyle, target_root: Seq<char>) -> Seq<char> {
    joined(style, target_root, "sherpa-onnx-prebuilt"@)
}

/// The library directory of this release's archive inside the cache.
pub open spec fn prebuilt_stem_lib_path(style: PathStyle, cache_root: Seq<char>) -> Seq<char> {
    joined(style, joined(style, cache_root, archive_stem()), "lib"@)
}

/// The cache of unpacked prebuilt archives inside a build directory.
pub fn prebuilt_cache_root(style: PathStyle, target_root: &str) -> (r: String)
    ensures
        r@ == prebuilt_cache_root_path(style, target_root@),
{
    join_path(style, target_root, "sherpa-onnx-prebuilt")
}

/// The library directory of this release's archive inside the cache.
pub fn prebuilt_stem_lib_dir(style: PathStyle, cache_root: &str) -> (r: String)
    ensures
        r@ == prebuilt_stem_lib_path(style, cache_root@),
{
    let stem = prebuilt_archive_stem();
    let d = join_path(style, cache_root, stem.as_str());
    join_path(style, d.as_str(), "lib")
}

/// The `lib` directory inside a directory.
pub fn lib_subdir(style: PathStyle, dir: &str) -> (r: String)
    ensures
        r@ == joined(style, dir@, "lib"@),
{
    join_path(style, dir, "lib")
}

/// What is known of one entry of the prebuilt cache: whether its `lib`
/// directory exists, and whether that directory holds any DLL.
pub struct CandidateProbe {
    pub lib_is_dir: bool,
    pub has_dlls: bool,
}

/// Where the prebuilt libraries were found.
pub enum PrebuiltChoice {
    /// The `lib` directory of this release's archive.
    StemLib,
    /// The `lib` directory of the listed cache entry with this index.
    Entry(usize),
    NotFound,
}

/// The first listed cache entry, from `start` on, whose `lib` directory exists
/// and holds DLLs; entries that could not be read (`None`) are passed over.
pub open spec fn first_usable_candidate(listing: Seq<Option<CandidateProbe>>, start: int) -> Option<int>
    decreases listing.len() - start,
{
    if start < 0 || start >= listing.len() {
        None
    } else if listing[start] matches Some(c) && c.lib_is_dir && c.has_dlls {
        Some(start)
    } else {
        first_usable_candidate(listing, start + 1)
    }
}

/// Where the prebuilt cache holds the runtime libraries: nowhere without a
/// build directory or a cache; this release's `lib` directory when it
/// exists; else the first cache entry whose `lib` directory holds DLLs; none
/// when the cache cannot be listed (`None`) or no entry qualifies.
pub fn sherpa_prebuilt_lib_dir(
    target_root_found: bool,
    cache_root_is_dir: bool,
    stem_lib_is_dir: bool,
    listing: Option<Vec<Option<CandidateProbe>>>,
) -> (r: PrebuiltChoice)
    ensures
        !(target_root_found && cache_root_is_dir) ==> r is NotFound,
        target_root_found && cache_root_is_dir && stem_lib_is_dir ==> r is StemLib,
        target_root_found && cache_root_is_dir && !stem_lib_is_dir ==> match listing {
            None => r is NotFound,
            Some(l) => match first_usable_candidate(l@, 0) {
                Some(m) => r == PrebuiltChoice::Entry(m as usize),
                None => r is NotFound,
            },
        },
{
    if !(target_root_found && cache_root_is_dir) {
        return PrebuiltChoice::NotFound;
    }
    if stem_lib_is_dir {
        return PrebuiltChoice::StemLib;
    }
    let l = match &listing {
        Some(l) => l,
        None => return PrebuiltChoice::NotFound,
    };
    let mut m: usize = 0;
    while m < l.len()
        invariant
            target_root_found && cache_root_is_dir && !stem_lib_is_dir,
            listing == Some(*l),
            m <= l@.len(),
            first_usable_candidate(l@, 0) == first_usable_candidate(l@, m as int),
        decreases l@.len() - m,
    {
        match &l[m] {
            Some(c) => {
                if c.lib_is_dir && c.has_dlls {
                    return PrebuiltChoice::Entry(m);
                }
            },
            None => {},
        }
        m = m + 1;
    }
    PrebuiltChoice::NotFound
}

/// What is known of one entry of an unpacked archive: whether it is a
/// directory, and whether it has a `lib` directory inside.
pub struct LibProbe {
    pub is_dir: bool,
    pub lib_is_dir: bool,
}

/// Where an unpacked archive keeps its libraries.
pub enum LibDirChoice {
    /// The `lib` directory at the top of the archive.
    Direct,
    /// The `lib` directory inside the listed entry with this index.
    Entry(usize),
    NotFound,
}

/// The first listed entry, from `start` on, that is a directory with a `lib`
/// directory inside; the search ends with none at an entry that could not be
/// read (`None`).
pub open spec fn first_lib_entry(listing: Seq<Option<LibProbe>>, start: int) -> Option<int>
    decreases listing.len() - start,
{
    if start < 0 || start >= listing.len() {
        None
    } else {
        match listing[start] {
            None => None,
            Some(p) => if p.is_dir && p.lib_is_dir {
                Some(start)
            } else {
                first_lib_entry(listing, start + 1)
            },
        }
    }
}

/// Where an unpacked archive keeps its libraries: its top-level `lib`
/// directory when that exists; else the `lib` directory of the first listed
/// directory that has one; none when the archive root cannot be listed
/// (`None`) or an entry cannot be read before one is found.
pub fn find_lib_dir(direct_is_dir: bool, listing: Option<Vec<Option<LibProbe>>>) -> (r: LibDirChoice)
    ensures
        direct_is_dir ==> r is Direct,
        !direct_is_dir ==> match listing {
            None => r is NotFound,
            Some(l) => match first_lib_entry(l@, 0) {
                Some(m) => r == LibDirChoice::Entry(m as usize),
                None => r is NotFound,
            },
        },
{
    if direct_is_dir {
        return LibDirChoice::Direct;
    }
    let l = match &listing {
        Some(l) => l,
        None => return LibDirChoice::NotFound,
    };
    let mut m: usize = 0;
    while m < l.len()
        invariant
            !direct_is_dir,
            listing == Some(*l),
            m <= l@.len(),
            first_lib_entry(l@, 0) == first_lib_entry(l@, m as int),
        decreases l@.len() - m,
    {
        match &l[m] {
            None => return LibDirChoice::NotFound,
            Some(p) => {
                if p.is_dir && p.lib_is_dir {
                    return LibDirChoice::Entry(m);
                }
            },
        }
        m = m + 1;
    }
    LibDirChoice::NotFound
}

/// The places runtime libraries are listed from, in the order they are
/// tried; the prebuilt archive comes last.
#[derive(Clone, Copy, Debug, PartialEq, Eq, Structural)]
pub enum DllSource {
    /// The directory `SHERPA_ONNX_LIB_DIR` names.
    EnvLibDir,
    /// The build directory, where only runtime libraries count.
    TargetDir,
    /// The cache of unpacked prebuilt archives.
    PrebuiltCache,
}

/// What collecting the runtime libraries does after looking at one place.
pub enum DllStep {
    /// Stage these entries of the listing just looked at.
    Use(Vec<usize>),
    /// Look at this place next.
    Try(DllSource),
    /// Fall back to the prebuilt archive.
    Download,
}

/// Which entries count as libraries at a place: only the runtime ones in the
/// build directory, every DLL elsewhere.
pub open spec fn counts_at(source: DllSource, e: DirEntryInfo) -> bool {
    if source == DllSource::TargetDir {
        is_sherpa_entry(e)
    } else {
        is_dll_entry(e)
    }
}

/// Outside the build directory every DLL counts; in the build directory
/// exactly the runtime libraries count.
pub proof fn lemma_counts_at(source: DllSource)
    ensures
        source != DllSource::TargetDir ==> forall|e: DirEntryInfo| #[trigger] counts_at(source, e)
            == is_dll_entry(e),
        source == DllSource::TargetDir ==> forall|e: DirEntryInfo| #[trigger] counts_at(source, e)
            == is_sherpa_entry(e),
{
}

/// The step after a place that yields nothing.
pub open spec fn step_after(source: DllSource) -> DllStep {
    match source {
        DllSource::EnvLibDir => DllStep::Try(DllSource::TargetDir),
        DllSource::TargetDir => DllStep::Try(DllSource::PrebuiltCache),
        DllSource::PrebuiltCache => DllStep::Download,
    }
}

/// A usable collection: some entries, all DLLs, ordered by name.
pub open spec fn usable_collection(entries: Seq<DirEntryInfo>, v: Seq<usize>) -> bool {
    &&& v.len() > 0
    &&& sorted_by_name(entries, v)
    &&& forall|k: int| 0 <= k < v.len() ==> (#[trigger] v[k]) < entries.len() && is_dll_entry(
        entries[v[k] as int],
    )
}

/// One step of collecting the runtime libraries, given the listing of the
/// place `current` (`None` when that place is missing or cannot be listed):
/// the libraries found there when there are any, else the next place.
pub fn collect_step(current: DllSource, listing: Option<&Vec<DirEntryInfo>>) -> (r: DllStep)
    requires
        listing matches Some(es) ==> names_agree(es@),
    ensures
        match listing {
            None => r == step_after(current),
            Some(es) => if exists|j: int| 0 <= j < es@.len() && counts_at(current, #[trigger] es@[j]) {
                r matches DllStep::Use(v) && lists_exactly(es@, v@, |e: DirEntryInfo| counts_at(current, e))
                    && sorted_by_name(es@, v@)
            } else {
                r == step_after(current)
            },
        },
        r matches DllStep::Use(v) ==> (listing matches Some(es) && usable_collection(es@, v@)),
        listing matches Some(es) ==> forall|j: int|
            0 <= j < es@.len() && current != DllSource::TargetDir && is_dll_entry(#[trigger] es@[j])
                ==> (r matches DllStep::Use(v) && v@.contains(j as usize)),
        listing matches Some(es) ==> forall|j: int|
            0 <= j < es@.len() && current == DllSource::TargetDir && is_sherpa_entry(#[trigger] es@[j])
                ==> (r matches DllStep::Use(v) && v@.contains(j as usize)),
        r matches DllStep::Use(v) ==> (current == DllSource::TargetDir ==> (listing matches Some(es)
            && forall|k: int| 0 <= k < v@.len() ==> is_sherpa_entry(es@[#[trigger] v@[k] as int]))),
{
    proof {
        lemma_counts_at(current);
    }
    let next = match current {
        DllSource::EnvLibDir => DllStep::Try(DllSource::TargetDir),
        DllSource::TargetDir => DllStep::Try(DllSource::PrebuiltCache),
        DllSource::PrebuiltCache => DllStep::Download,
    };
    let es = match listing {
        Some(es) => es,
        None => return next,
    };
    let v = if current == DllSource::TargetDir {
        sherpa_dlls_in_dir(es)
    } else {
        dlls_in_dir(es)
    };
    let ghost p = |e: DirEntryInfo| counts_at(current, e);
    assert(lists_exactly(es@, v@, p));
    if v.len() == 0 {
        assert forall|j: int| 0 <= j < es@.len() implies !counts_at(current, #[trigger] es@[j]) by {
            if p(es@[j]) {
                assert(v@.contains(j as usize));
            }
        }
        next
    } else {
        assert(p(es@[v@[0] as int]));
        assert(usable_collection(es@, v@)) by {
            assert forall|k: int| 0 <= k < v@.len() implies (#[trigger] v@[k]) < es@.len() && is_dll_entry(
                es@[v@[k] as int],
            ) by {
                assert(p(es@[v@[k] as int]));
            }
        }
        DllStep::Use(v)
    }
}

/// The kinds of staging failure, each with its own wording.
#[derive(Clone, Copy, Debug, PartialEq, Eq, Structural)]
pub enum StageFailure {
    InvalidDllPath,
    CopyFailed,
    DownloadFailed,
    UnpackFailed,
    NoLibDirectory,
}

/// The words put before the detail of a staging failure.
pub open spec fn stage_failure_prefix(kind: StageFailure) -> Seq<char> {
    match kind {
        StageFailure::InvalidDllPath => "invalid DLL path: "@,
        StageFailure::CopyFailed => "copy failed: "@,
        StageFailure::DownloadFailed => "download failed: "@,
        StageFailure::UnpackFailed => "unpack failed: "@,
        StageFailure::NoLibDirectory => "no lib directory in archive "@,
    }
}

/// The message of a staging failure whose detail reads `detail`.
pub fn stage_failure(kind: StageFailure, detail: &str) -> (e: String)
    ensures
        e@ == stage_failure_prefix(kind) + detail@,
{
    let prefix = match kind {
        StageFailure::InvalidDllPath => "invalid DLL path: ",
        StageFailure::CopyFailed => "copy failed: ",
        StageFailure::DownloadFailed => "download failed: ",
        StageFailure::UnpackFailed => "unpack failed: ",
        StageFailure::NoLibDirectory => "no lib directory in archive ",
    };
    String::from_str(prefix).concat(detail)
}

/// The message when the download server answers with a failure status.
pub fn http_status_failure(status: &str, url: &str) -> (e: String)
    ensures
        e@ == "HTTP "@ + status@ + " for "@ + url@,
{
    String::from_str("HTTP ").concat(status).concat(" for ").concat(url)
}

/// The message when an unpacked archive has no DLL in its library directory.
pub open spec fn empty_archive_message() -> Seq<char> {
    "archive contained no DLL files"@
}

/// The libraries of an unpacked archive: the DLLs of its library directory,
/// ordered by name. `lib_listing` is the listing of that directory (`None`
/// when the archive has none). Fails when it has none, when listing it
/// fails, or when it holds no DLL.
pub fn check_archive_listing(archive_path: &str, lib_listing: Option<Result<Vec<DirEntryInfo>, String>>) -> (r: Result<Vec<usize>, String>)
    ensures
        match lib_listing {
            None => r matches Err(e) && e@ == stage_failure_prefix(StageFailure::NoLibDirectory)
                + archive_path@,
            Some(Err(d)) => r matches Err(e) && e@ == d@,
            Some(Ok(es)) => if exists|j: int| 0 <= j < es@.len() && is_dll_entry(#[trigger] es@[j]) {
                r matches Ok(v) && lists_exactly(es@, v@, |e: DirEntryInfo| is_dll_entry(e))
                    && usable_collection(es@, v@)
            } else {
                r matches Err(e) && e@ == empty_archive_message()
            },
        },
{
    let es = match lib_listing {
        None => return Err(stage_failure(StageFailure::NoLibDirectory, archive_path)),
        Some(Err(d)) => return Err(d),
        Some(Ok(es)) => es,
    };
    let v = dlls_in_dir(&es);
    let ghost p = |e: DirEntryInfo| is_dll_entry(e);
    if v.len() == 0 {
        assert forall|j: int| 0 <= j < es@.len() implies !is_dll_entry(#[trigger] es@[j]) by {
            if p(es@[j]) {
                assert(v@.contains(j as usize));
            }
        }
        Err(String::from_str("archive contained no DLL files"))
    } else {
        assert(p(es@[v@[0] as int]));
        assert forall|k: int| 0 <= k < v@.len() implies (#[trigger] v@[k]) < es@.len() && is_dll_entry(
            es@[v@[k] as int],
        ) by {
            assert(p(es@[v@[k] as int]));
        }
        Ok(v)
    }
}

/// A file whose extension is `dll` (in any case) has a lower-cased name that
/// ends in `.dll`.
pub proof fn lemma_dll_extension_ends_with_dll(name: Seq<u8>)
    requires
        has_dll_extension_spec(name),
    ensures
        ({
            let l = lower_bytes(name);
            l.len() >= 4 && l.subrange(l.len() - 4, l.len() as int) == seq![dot()] + dll_bytes()
        }),
{
    lemma_last_dot_before(name, name.len() as int);
    let k = last_dot_before(name, name.len() as int).unwrap();
    let e = name.subrange(k + 1, name.len() as int);
    assert(lower_bytes(e).len() == 3);
    assert(k == name.len() - 4);
    let l = lower_bytes(name);
    assert(l.subrange(l.len() - 4, l.len() as int) =~= seq![dot()] + dll_bytes()) by {
        assert(l[k] == dot());
        assert(l[k + 1] == lower_bytes(e)[0]);
        assert(l[k + 2] == lower_bytes(e)[1]);
        assert(l[k + 3] == lower_bytes(e)[2]);
    }
}

/// Every runtime library listed for a directory is among its DLLs.
pub proof fn lemma_sherpa_dlls_are_dlls(entries: Seq<DirEntryInfo>, sherpa: Seq<usize>, dlls: Seq<usize>)
    requires
        lists_exactly(entries, sherpa, |e: DirEntryInfo| is_sherpa_entry(e)),
        lists_exactly(entries, dlls, |e: DirEntryInfo| is_dll_entry(e)),
    ensures
        forall|k: int| 0 <= k < sherpa.len() ==> dlls.contains(#[trigger] sherpa[k]),
{
    assert forall|k: int| 0 <= k < sherpa.len() implies dlls.contains(#[trigger] sherpa[k]) by {
        let j = sherpa[k] as int;
        assert(is_sherpa_entry(entries[j]));
        assert(is_dll_entry(entries[j]));
        assert(sherpa[k] == j as usize);
    }
}

/// Which names count as runtime libraries: never one whose lower-cased form
/// does not end in `.dll`; always a `.dll` whose lower-cased name begins with
/// `kaldi` or mentions any runtime component. The answer ignores ASCII case.
pub proof fn lemma_runtime_names(n: Seq<char>, m: Seq<char>)
    ensures
        !has_suffix(lower_seq(n), ".dll"@) ==> !is_sherpa_runtime_name(n),
        has_suffix(lower_seq(n), ".dll"@) && has_prefix(lower_seq(n), "kaldi"@) ==> is_sherpa_runtime_name(n),
        has_suffix(lower_seq(n), ".dll"@) && has_infix(lower_seq(n), "sherpa"@) ==> is_sherpa_runtime_name(n),
        has_suffix(lower_seq(n), ".dll"@) && has_infix(lower_seq(n), "onnxruntime"@) ==> is_sherpa_runtime_name(n),
        has_suffix(lower_seq(n), ".dll"@) && has_infix(lower_seq(n), "kaldifst"@) ==> is_sherpa_runtime_name(n),
        has_suffix(lower_seq(n), ".dll"@) && has_infix(lower_seq(n), "fst"@) ==> is_sherpa_runtime_name(n),
        has_suffix(lower_seq(n), ".dll"@) && has_infix(lower_seq(n), "fbank"@) ==> is_sherpa_runtime_name(n),
        has_suffix(lower_seq(n), ".dll"@) && has_infix(lower_seq(n), "kissfft"@) ==> is_sherpa_runtime_name(n),
        has_suffix(lower_seq(n), ".dll"@) && has_infix(lower_seq(n), "piper"@) ==> is_sherpa_runtime_name(n),
        has_suffix(lower_seq(n), ".dll"@) && has_infix(lower_seq(n), "espeak"@) ==> is_sherpa_runtime_name(n),
        has_suffix(lower_seq(n), ".dll"@) && has_infix(lower_seq(n), "ssentencepiece"@) ==> is_sherpa_runtime_name(n),
        has_suffix(lower_seq(n), ".dll"@) && has_infix(lower_seq(n), "ucd"@) ==> is_sherpa_runtime_name(n),
        lower_seq(n) == lower_seq(m) ==> is_sherpa_runtime_name(n) == is_sherpa_runtime_name(m),
        !has_prefix(lower_seq(n), "kaldi"@) && !has_infix(lower_seq(n), "sherpa"@) && !has_infix(
            lower_seq(n),
            "onnxruntime"@,
        ) && !has_infix(lower_seq(n), "fst"@) && !has_infix(lower_seq(n), "fbank"@) && !has_infix(
            lower_seq(n),
            "kissfft"@,
        ) && !has_infix(lower_seq(n), "piper"@) && !has_infix(lower_seq(n), "espeak"@) && !has_infix(
            lower_seq(n),
            "ssentencepiece"@,
        ) && !has_infix(lower_seq(n), "ucd"@) && !has_infix(lower_seq(n), "kaldifst"@)
            ==> !is_sherpa_runtime_name(n),
{
}

/// The first usable cache entry is the least readable entry whose `lib`
/// directory exists and holds DLLs; there is none exactly when no entry
/// qualifies. Unreadable entries are passed over.
pub proof fn lemma_first_usable_candidate(listing: Seq<Option<CandidateProbe>>, k: int)
    ensures
        (0 <= k < listing.len() && (listing[k] matches Some(c) && c.lib_is_dir && c.has_dlls)
            && forall|i: int| 0 <= i < k ==> !(#[trigger] listing[i] matches Some(c) && c.lib_is_dir
            && c.has_dlls)) ==> first_usable_candidate(listing, 0) == Some(k),
        first_usable_candidate(listing, 0) is None <==> forall|i: int|
            0 <= i < listing.len() ==> !(#[trigger] listing[i] matches Some(c) && c.lib_is_dir
                && c.has_dlls),
{
    lemma_first_usable_from(listing, 0);
}

proof fn lemma_first_usable_from(listing: Seq<Option<CandidateProbe>>, start: int)
    requires
        0 <= start,
    ensures
        forall|k: int|
            start <= k < listing.len() && (listing[k] matches Some(c) && c.lib_is_dir && c.has_dlls)
                && (forall|i: int| start <= i < k ==> !(#[trigger] listing[i] matches Some(c)
                && c.lib_is_dir && c.has_dlls)) ==> first_usable_candidate(listing, start) == Some(k),
        first_usable_candidate(listing, start) is None <==> forall|i: int|
            start <= i < listing.len() ==> !(#[trigger] listing[i] matches Some(c) && c.lib_is_dir
                && c.has_dlls),
    decreases listing.len() - start,
{
    if start < listing.len() {
        lemma_first_usable_from(listing, start + 1);
    }
}

/// The `lib` directory found in an unpacked archive's listing is that of
/// the least entry that is a directory with a `lib` directory, provided every
/// entry before it could be read; an unreadable entry before any such
/// directory ends the search with none.
pub proof fn lemma_first_lib_entry(listing: Seq<Option<LibProbe>>, k: int)
    ensures
        (0 <= k < listing.len() && (listing[k] matches Some(p) && p.is_dir && p.lib_is_dir)
            && forall|i: int| 0 <= i < k ==> (#[trigger] listing[i] matches Some(p) && !(p.is_dir
            && p.lib_is_dir))) ==> first_lib_entry(listing, 0) == Some(k),
        (0 <= k < listing.len() && listing[k] is None && forall|i: int|
            0 <= i < k ==> (#[trigger] listing[i] matches Some(p) && !(p.is_dir && p.lib_is_dir)))
            ==> first_lib_entry(listing, 0) is None,
        (forall|i: int| 0 <= i < listing.len() ==> (#[trigger] listing[i] matches Some(p) && !(p.is_dir
            && p.lib_is_dir))) ==> first_lib_entry(listing, 0) is None,
        first_lib_entry(listing, 0) matches Some(j) ==> 0 <= j < listing.len() && (listing[j] matches Some(
            p,
        ) && p.is_dir && p.lib_is_dir),
{
    lemma_first_lib_from(listing, 0);
}

proof fn lemma_first_lib_from(listing: Seq<Option<LibProbe>>, start: int)
    requires
        0 <= start,
    ensures
        forall|k: int|
            start <= k < listing.len() && (listing[k] matches Some(p) && p.is_dir && p.lib_is_dir)
                && (forall|i: int| start <= i < k ==> (#[trigger] listing[i] matches Some(p) && !(
                p.is_dir && p.lib_is_dir))) ==> first_lib_entry(listing, start) == Some(k),
        forall|k: int|
            start <= k < listing.len() && listing[k] is None && (forall|i: int|
                start <= i < k ==> (#[trigger] listing[i] matches Some(p) && !(p.is_dir
                && p.lib_is_dir))) ==> first_lib_entry(listing, start) is None,
        (forall|i: int| start <= i < listing.len() ==> (#[trigger] listing[i] matches Some(p) && !(
            p.is_dir && p.lib_is_dir))) ==> first_lib_entry(listing, start) is None,
        first_lib_entry(listing, start) matches Some(j) ==> start <= j < listing.len() && (
        listing[j] matches Some(p) && p.is_dir && p.lib_is_dir),
    decreases listing.len() - start,
{
    if start < listing.len() {
        lemma_first_lib_from(listing, start + 1);
    }
}

} // verus!
