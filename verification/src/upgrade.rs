//! Pending package upgrades: parsing the upgrade list the package manager
//! prints, and enriching each entry from the loaded indexes.

use crate::alpm::SyncPkgView;
use crate::index::{PackageIndex, SizeIndex};
use crate::repo::{Repo, RepoView};
use crate::strutil::{find_char_from, scan_char, str_eq};
use vstd::prelude::*;
use vstd::utf8::is_ascii_chars;

verus! {

/// The whitespace characters a list token may not contain: the Unicode
/// `White_Space` set.
pub open spec fn is_ws(c: char) -> bool {
    c == ' ' || c == '\t' || c == '\n' || c == '\r' || c == '\x0b' || c == '\x0c' || c == '\u{85}'
        || c == '\u{a0}' || c == '\u{1680}' || ('\u{2000}' <= c && c <= '\u{200a}') || c
        == '\u{2028}' || c == '\u{2029}' || c == '\u{202f}' || c == '\u{205f}' || c == '\u{3000}'
}

/// The pieces of `s` between its spaces, in order; an empty text yields one
/// empty piece.
pub open spec fn split_spaces_from(s: Seq<char>, i: int) -> Seq<Seq<char>>
    decreases s.len() - i
        when 0 <= i <= s.len()
{
    let k = find_char_from(s, ' ', i);
    proof {
        crate::strutil::lemma_find_char_from(s, ' ', i);
    }
    if k >= s.len() {
        seq![s.subrange(i, s.len() as int)]
    } else {
        seq![s.subrange(i, k)] + split_spaces_from(s, k + 1)
    }
}

pub open spec fn split_spaces(s: Seq<char>) -> Seq<Seq<char>> {
    split_spaces_from(s, 0)
}

/// A token of the upgrade-line format: non-empty, free of whitespace.
pub open spec fn token_ok(t: Seq<char>) -> bool {
    t.len() > 0 && forall|i: int| 0 <= i < t.len() ==> !is_ws(#[trigger] t[i])
}

/// What an upgrade-list line `<pkgname> <oldver> -> <newver>` denotes, or
/// `None` for a line not of that shape.
pub open spec fn spec_parse_upgrade(s: Seq<char>) -> Option<(Seq<char>, Seq<char>, Seq<char>)> {
    let f = split_spaces(s);
    if f.len() == 4 && token_ok(f[0]) && token_ok(f[1]) && f[2] == "->"@ && token_ok(f[3]) {
        Some((f[0], f[1], f[3]))
    } else {
        None
    }
}

/// Split a line at its spaces.
fn split_spaces_exec(s: &str) -> (r: Vec<String>)
    ensures
        r.deep_view() == split_spaces(s@),
{
    let n = s.unicode_len();
    let mut out: Vec<String> = Vec::new();
    let mut i: usize = 0;
    loop
        invariant_except_break
            out.deep_view() + split_spaces_from(s@, i as int) == split_spaces(s@),
        invariant
            i <= n,
            n == s@.len(),
        ensures
            out.deep_view() == split_spaces(s@),
        decreases n - i,
    {
        let ghost before = out.deep_view();
        let k = scan_char(s, ' ', i, n);
        proof {
            crate::strutil::lemma_find_char_from(s@, ' ', i as int);
        }
        out.push(s.substring_char(i, k).to_owned());
        proof {
            assert(out.deep_view() =~= before.push(s@.subrange(i as int, k as int)));
        }
        if k >= n {
            proof {
                assert(before.push(s@.subrange(i as int, k as int)) =~= before
                    + split_spaces_from(s@, i as int));
            }
            break;
        }
        proof {
            assert(before.push(s@.subrange(i as int, k as int)) + split_spaces_from(
                s@,
                k as int + 1,
            ) =~= before + split_spaces_from(s@, i as int));
        }
        i = k + 1;
    }
    out
}

/// Decide whether a character is in the Unicode `White_Space` set.
fn is_ws_char(c: char) -> (r: bool)
    ensures
        r == is_ws(c),
{
    let u = c as u32;
    u == 0x20 || u == 0x9 || u == 0xa || u == 0xd || u == 0xb || u == 0xc || u == 0x85 || u == 0xa0
        || u == 0x1680 || (0x2000 <= u && u <= 0x200a) || u == 0x2028 || u == 0x2029 || u == 0x202f
        || u == 0x205f || u == 0x3000
}

/// Decide a token.
fn token_ok_exec(t: &str) -> (r: bool)
    ensures
        r == token_ok(t@),
{
    let n = t.unicode_len();
    if n == 0 {
        return false;
    }
    let mut i: usize = 0;
    while i < n
        invariant
            i <= n,
            n == t@.len(),
            forall|j: int| 0 <= j < i ==> !is_ws(#[trigger] t@[j]),
        decreases n - i,
    {
        if is_ws_char(t.get_char(i)) {
            return false;
        }
        i = i + 1;
    }
    true
}

/// Ghost form of a pending upgrade.
pub struct UpgradeView {
    pub repo: Option<RepoView>,
    pub pkgname: Seq<char>,
    pub oldver: Seq<char>,
    pub newver: Seq<char>,
    pub download_size: u64,
    pub install_size: u64,
    pub old_size: u64,
}

/// One pending package upgrade, as the upgrade list reports it, with the
/// metadata the indexes contribute.
#[derive(Debug)]
pub struct Upgrade {
    pub repo: Option<Repo>,
    pub pkgname: String,
    pub oldver: String,
    pub newver: String,
    pub download_size: u64,
    pub install_size: u64,
    pub old_size: u64,
}

impl View for Upgrade {
    type V = UpgradeView;

    open spec fn view(&self) -> UpgradeView {
        UpgradeView {
            repo: match self.repo {
                Some(r) => Some(r@),
                None => None,
            },
            pkgname: self.pkgname@,
            oldver: self.oldver@,
            newver: self.newver@,
            download_size: self.download_size,
            install_size: self.install_size,
            old_size: self.old_size,
        }
    }
}

/// How one upgrade looks after enrichment: a package found in the index
/// gets its repository and sizes, and its installed size where the local
/// scan has one; a package the index lacks is left unchanged.
pub open spec fn spec_enrich(
    u: UpgradeView,
    m: Map<Seq<char>, SyncPkgView>,
    l: Map<Seq<char>, u64>,
) -> UpgradeView {
    if m.contains_key(u.pkgname) {
        let p = m[u.pkgname];
        UpgradeView {
            repo: Some(p.repo),
            pkgname: u.pkgname,
            oldver: u.oldver,
            newver: u.newver,
            download_size: p.download_size,
            install_size: p.install_size,
            old_size: if l.contains_key(u.pkgname) {
                l[u.pkgname]
            } else {
                u.old_size
            },
        }
    } else {
        u
    }
}

/// Length of the common prefix of `a` and `b` from position `i` on.
pub open spec fn common_prefix_from(a: Seq<char>, b: Seq<char>, i: int) -> int
    decreases a.len() - i
        when 0 <= i
{
    if i >= a.len() || i >= b.len() || a[i] != b[i] {
        i
    } else {
        common_prefix_from(a, b, i + 1)
    }
}

/// An ASCII letter or digit.
pub open spec fn is_alnum(c: char) -> bool {
    ('0' <= c && c <= '9') || ('a' <= c && c <= 'z') || ('A' <= c && c <= 'Z')
}

/// How many letter-or-digit characters end the prefix `s[..i]`.
pub open spec fn alnum_suffix_len(s: Seq<char>, i: int) -> int
    decreases i
        when 0 <= i <= s.len()
{
    if i <= 0 || !is_alnum(s[i - 1]) {
        0
    } else {
        1 + alnum_suffix_len(s, i - 1)
    }
}

/// Where the old and new version strings start to differ, walked back to
/// the beginning of the current letter-or-digit run so that a version
/// component is never split in the middle.
pub open spec fn spec_common_length(a: Seq<char>, b: Seq<char>) -> int {
    let common = common_prefix_from(a, b, 0);
    common - alnum_suffix_len(a, common)
}

/// Decide whether a character is an ASCII letter or digit.
fn is_alnum_char(c: char) -> (r: bool)
    ensures
        r == is_alnum(c),
{
    let u = c as u32;
    (48 <= u && u <= 57) || (97 <= u && u <= 122) || (65 <= u && u <= 90)
}

proof fn lemma_common_prefix_is(a: Seq<char>, b: Seq<char>, k: int)
    requires
        0 <= k <= a.len(),
        k <= b.len(),
        forall|j: int| 0 <= j < k ==> a[j] == b[j],
        k == a.len() || k == b.len() || a[k] != b[k],
    ensures
        common_prefix_from(a, b, 0) == k,
{
    lemma_common_prefix_is_from(a, b, 0, k);
}

proof fn lemma_common_prefix_is_from(a: Seq<char>, b: Seq<char>, i: int, k: int)
    requires
        0 <= i <= k <= a.len(),
        k <= b.len(),
        forall|j: int| i <= j < k ==> a[j] == b[j],
        k == a.len() || k == b.len() || a[k] != b[k],
    ensures
        common_prefix_from(a, b, i) == k,
    decreases k - i,
{
    if i < k {
        lemma_common_prefix_is_from(a, b, i + 1, k);
    }
}

proof fn lemma_alnum_suffix_is(s: Seq<char>, i: int, e: int)
    requires
        0 <= e <= i <= s.len(),
        forall|j: int| e <= j < i ==> is_alnum(#[trigger] s[j]),
        e == 0 || !is_alnum(s[e - 1]),
    ensures
        alnum_suffix_len(s, i) == i - e,
    decreases i - e,
{
    if e < i {
        lemma_alnum_suffix_is(s, i - 1, e);
    }
}

impl Upgrade {
    /// Parse one line of the upgrade list, `<pkgname> <oldver> -> <newver>`;
    /// lines of any other shape yield `None`.  Sizes start at zero and the
    /// repository unknown until enrichment fills them in.
    pub fn from_line(s: &str) -> (r: Option<Upgrade>)
        ensures
            match r {
                Some(u) => {
                    &&& spec_parse_upgrade(s@) == Some((u.pkgname@, u.oldver@, u.newver@))
                    &&& u.repo is None
                    &&& u.download_size == 0
                    &&& u.install_size == 0
                    &&& u.old_size == 0
                },
                None => spec_parse_upgrade(s@) is None,
            },
    {
        let mut fields = split_spaces_exec(s);
        if fields.len() != 4 {
            return None;
        }
        proof {
            assert(fields.deep_view()[2] == fields@[2]@);
            assert(fields.deep_view()[0] == fields@[0]@);
            assert(fields.deep_view()[1] == fields@[1]@);
            assert(fields.deep_view()[3] == fields@[3]@);
        }
        if !str_eq(fields[2].as_str(), "->") {
            return None;
        }
        if !token_ok_exec(fields[0].as_str()) {
            return None;
        }
        if !token_ok_exec(fields[1].as_str()) {
            return None;
        }
        if !token_ok_exec(fields[3].as_str()) {
            return None;
        }
        let newver = fields.pop().unwrap();
        let _ = fields.pop();
        let oldver = fields.pop().unwrap();
        let pkgname = fields.pop().unwrap();
        Some(
            Upgrade {
                repo: None,
                pkgname,
                oldver,
                newver,
                download_size: 0,
                install_size: 0,
                old_size: 0,
            },
        )
    }

    /// Where the old and new version strings diverge, aligned to the start
    /// of the letter-or-digit run the divergence falls in.
    pub fn common_length(&self) -> (r: usize)
        requires
            is_ascii_chars(self.oldver@),
            is_ascii_chars(self.newver@),
        ensures
            r == spec_common_length(self.oldver@, self.newver@),
            r <= self.oldver@.len(),
            r <= self.newver@.len(),
    {
        let a = self.oldver.as_str();
        let b = self.newver.as_str();
        let na = a.unicode_len();
        let nb = b.unicode_len();
        let mut common: usize = 0;
        while common < na && common < nb && a.get_char(common) == b.get_char(common)
            invariant
                common <= na,
                common <= nb,
                na == a@.len(),
                nb == b@.len(),
                forall|j: int| 0 <= j < common ==> a@[j] == b@[j],
            decreases na - common,
        {
            common = common + 1;
        }
        proof {
            lemma_common_prefix_is(a@, b@, common as int);
        }
        let mut e = common;
        while e > 0 && is_alnum_char(a.get_char(e - 1))
            invariant
                e <= common <= a@.len(),
                na == a@.len(),
                forall|j: int| e <= j < common ==> is_alnum(#[trigger] a@[j]),
            decreases e,
        {
            e = e - 1;
        }
        proof {
            lemma_alnum_suffix_is(a@, common as int, e as int);
        }
        e
    }
}

/// Fill each upgrade's repository, download size, install size and old
/// installed size from the indexes; packages the index lacks stay
/// unchanged, as do old sizes the local scan lacks.
#[verifier::loop_isolation(false)]
pub fn add_extra_info(upgrades: &mut Vec<Upgrade>, syncdb: &PackageIndex, local_sizes: &SizeIndex)
    ensures
        final(upgrades)@.len() == old(upgrades)@.len(),
        forall|i: int|
            0 <= i < old(upgrades)@.len() ==> (#[trigger] final(upgrades)@[i])@ == spec_enrich(
                old(upgrades)@[i]@,
                syncdb@,
                local_sizes@,
            ),
{
    let n = upgrades.len();
    let mut i: usize = 0;
    while i < n
        invariant
            i <= n,
            upgrades@.len() == n,
            forall|j: int|
                i <= j < n ==> #[trigger] upgrades@[j] == old(upgrades)@[j],
            forall|j: int|
                0 <= j < i ==> (#[trigger] upgrades@[j])@ == spec_enrich(
                    old(upgrades)@[j]@,
                    syncdb@,
                    local_sizes@,
                ),
        decreases n - i,
    {
        match syncdb.get(upgrades[i].pkgname.as_str()) {
            Some(p) => {
                let rep = p.repo.clone();
                let dl = p.download_size;
                let inst = p.install_size;
                let lsz = local_sizes.get(upgrades[i].pkgname.as_str());
                let u = &mut upgrades[i];
                u.repo = Some(rep);
                u.download_size = dl;
                u.install_size = inst;
                match lsz {
                    Some(sz) => {
                        u.old_size = sz;
                    },
                    None => {},
                }
            },
            None => {},
        }
        i = i + 1;
    }
}

} // verus!
