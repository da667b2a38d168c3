//! The package-manager configuration, the installed-package set, and the
//! transaction builder that renders the final install invocation.

use vstd::prelude::*;
use vstd::string::*;

use crate::text::{spec_lines, split_lines, str_eq};

verus! {

/// Process-wide, read-only package-manager configuration: binary
/// locations, the default-source policy, and whether the current
/// process already runs elevated.
pub struct Pacman {
    /// The primary package-manager binary.
    pub binary: &'static str,
    /// The alternate-source (AUR-style) helper binary.
    pub aur_binary: &'static str,
    /// The privilege-elevation binary.
    pub sudo_binary: &'static str,
    /// Route every transaction through the alternate-source helper.
    pub default_to_aur: bool,
    /// The current process already runs with elevated privileges.
    pub is_root: bool,
}

impl Pacman {
    /// The stock configuration: fixed binary paths, standard source,
    /// privileges assumed not elevated until reported otherwise.
    pub fn new() -> (r: Pacman)
        ensures
            r.binary@ == "/usr/bin/pacman"@,
            r.aur_binary@ == "/usr/bin/trizen"@,
            r.sudo_binary@ == "/usr/bin/sudo"@,
            !r.default_to_aur,
            !r.is_root,
    {
        Pacman {
            aur_binary: "/usr/bin/trizen",
            binary: "/usr/bin/pacman",
            sudo_binary: "/usr/bin/sudo",
            default_to_aur: false,
            is_root: false,
        }
    }

    /// Record whether the current process runs elevated, as the caller
    /// determined it.
    pub fn set_user_status(&mut self, elevated: bool)
        ensures
            final(self).is_root == elevated,
            final(self).binary == old(self).binary,
            final(self).aur_binary == old(self).aur_binary,
            final(self).sudo_binary == old(self).sudo_binary,
            final(self).default_to_aur == old(self).default_to_aur,
    {
        self.is_root = elevated;
    }

    /// Open a fresh, empty transaction against this configuration.
    pub fn begin_transaction(&self) -> (t: PackageTransaction<'_>)
        ensures
            t.pacman == self,
            t.packages_to_add@.len() == 0,
            !t.aur_requested,
    {
        PackageTransaction { pacman: self, packages_to_add: Vec::new(), aur_requested: false }
    }
}

/// The names a raw package listing contains: each line, its trailing
/// carriage return dropped, that is non-empty.
pub open spec fn spec_installed_names(s: Seq<char>) -> Set<Seq<char>> {
    Set::new(
        |n: Seq<char>|
            n.len() > 0 && exists|i: int|
                0 <= i < spec_lines(s).len() && n == spec_chomp(#[trigger] spec_lines(s)[i]),
    )
}

/// The installed set never contains the empty name, whatever raw
/// listing it was built from: empty lines are excluded.
pub proof fn lemma_installed_excludes_empty(s: Seq<char>)
    ensures
        !spec_installed_names(s).contains(Seq::<char>::empty()),
{
}

/// A line with its trailing carriage return, if any, dropped.
pub open spec fn spec_chomp(l: Seq<char>) -> Seq<char> {
    if l.len() > 0 && l[l.len() - 1] == '\r' {
        l.take(l.len() - 1)
    } else {
        l
    }
}

/// An immutable snapshot of the package names currently installed,
/// built once from the package manager's raw listing output.
pub struct InstalledSet {
    pub names: Vec<String>,
}

impl View for InstalledSet {
    type V = Set<Seq<char>>;

    open spec fn view(&self) -> Set<Seq<char>> {
        Set::new(|n: Seq<char>| self.names.deep_view().contains(n))
    }
}

impl InstalledSet {
    /// Build the set from the newline-delimited output of the
    /// package-listing command, skipping empty lines.
    pub fn from_raw(raw: &str) -> (r: InstalledSet)
        ensures
            r@ == spec_installed_names(raw@),
    {
        let lines = split_lines(raw);
        let mut names: Vec<String> = Vec::new();
        let mut k: usize = 0;
        while k < lines.len()
            invariant
                k <= lines.len(),
                lines.deep_view() == spec_lines(raw@),
                forall|n: Seq<char>|
                    names.deep_view().contains(n) <==> (n.len() > 0 && exists|i: int|
                        0 <= i < k && n == spec_chomp(#[trigger] lines.deep_view()[i])),
            decreases lines.len() - k,
        {
            let line: &String = &lines[k];
            let m = line.as_str().unicode_len();
            let trimmed: String = if m > 0 && line.as_str().get_char(m - 1) == '\r' {
                line.as_str().substring_char(0, m - 1).to_owned()
            } else {
                line.clone()
            };
            proof {
                assert(trimmed@ == spec_chomp(lines.deep_view()[k as int]));
            }
            let ghost prev = names.deep_view();
            if !trimmed.as_str().is_empty() {
                names.push(trimmed);
                proof {
                    let dv = names.deep_view();
                    assert(dv =~= prev.push(trimmed@));
                    assert forall|n: Seq<char>| #[trigger]
                        dv.contains(n) implies (prev.contains(n) || n == trimmed@) by {
                        let i = choose|i: int| 0 <= i < dv.len() && dv[i] == n;
                        if i < prev.len() {
                            assert(prev[i] == n);
                        }
                    }
                    assert forall|n: Seq<char>| #[trigger]
                        prev.contains(n) implies dv.contains(n) by {
                        let i = choose|i: int| 0 <= i < prev.len() && prev[i] == n;
                        assert(dv[i] == n);
                    }
                    assert(dv[prev.len() as int] == trimmed@);
                    assert(dv.contains(trimmed@));
                    let ldv = lines.deep_view();
                    assert forall|n: Seq<char>| #[trigger] dv.contains(n) implies (n.len() > 0
                        && exists|i: int|
                        0 <= i < k + 1 && n == spec_chomp(#[trigger] ldv[i])) by {
                        if prev.contains(n) {
                            let i = choose|i: int|
                                0 <= i < k && n == spec_chomp(#[trigger] ldv[i]);
                            assert(0 <= i < k + 1 && n == spec_chomp(ldv[i]));
                        } else {
                            assert(n == trimmed@);
                            assert(0 <= k < k + 1 && n == spec_chomp(ldv[k as int]));
                        }
                    }
                    assert forall|n: Seq<char>| (n.len() > 0 && exists|i: int|
                        0 <= i < k + 1 && n == spec_chomp(#[trigger] ldv[i])) implies #[trigger]
                        dv.contains(n) by {
                        let i = choose|i: int| 0 <= i < k + 1 && n == spec_chomp(#[trigger] ldv[i]);
                        if i < k {
                            assert(prev.contains(n));
                        } else {
                            assert(n == trimmed@);
                        }
                    }
                }
            } else {
                proof {
                    let dv = names.deep_view();
                    let ldv = lines.deep_view();
                    assert(trimmed@.len() == 0);
                    assert forall|n: Seq<char>| #[trigger] dv.contains(n) implies (n.len() > 0
                        && exists|i: int|
                        0 <= i < k + 1 && n == spec_chomp(#[trigger] ldv[i])) by {
                        let i = choose|i: int| 0 <= i < k && n == spec_chomp(#[trigger] ldv[i]);
                        assert(0 <= i < k + 1 && n == spec_chomp(ldv[i]));
                    }
                    assert forall|n: Seq<char>| (n.len() > 0 && exists|i: int|
                        0 <= i < k + 1 && n == spec_chomp(#[trigger] ldv[i])) implies #[trigger]
                        dv.contains(n) by {
                        let i = choose|i: int| 0 <= i < k + 1 && n == spec_chomp(#[trigger] ldv[i]);
                        if i < k {
                            assert(dv.contains(n));
                        } else {
                            assert(n == trimmed@);
                            assert(false);
                        }
                    }
                }
            }
            k += 1;
        }
        let r = InstalledSet { names };
        proof {
            assert(r@ =~= spec_installed_names(raw@));
        }
        r
    }

    /// Whether `name` is among the installed packages.
    pub fn contains(&self, name: &str) -> (r: bool)
        ensures
            r == self@.contains(name@),
    {
        let mut i: usize = 0;
        while i < self.names.len()
            invariant
                i <= self.names.len(),
                forall|j: int| 0 <= j < i ==> self.names.deep_view()[j] != name@,
            decreases self.names.len() - i,
        {
            if str_eq(self.names[i].as_str(), name) {
                proof {
                    assert(self.names.deep_view()[i as int] == name@);
                    assert(self.names.deep_view().contains(name@));
                }
                return true;
            }
            i += 1;
        }
        proof {
            assert(!self.names.deep_view().contains(name@));
        }
        false
    }
}

/// The accumulating unit of work: the packages still missing, in
/// manifest order, and whether any of them asked for the alternate
/// source.
pub struct PackageTransaction<'a> {
    /// The configuration this transaction renders against.
    pub pacman: &'a Pacman,
    /// The missing packages, in the order they were added.
    pub packages_to_add: Vec<String>,
    /// Some package asked for the alternate source; once set, the whole
    /// transaction goes through the alternate-source helper.
    pub aur_requested: bool,
}

impl<'a> PackageTransaction<'a> {
    /// The transaction goes through the alternate-source helper:
    /// requested by a package, or the configuration's default policy.
    pub open spec fn spec_use_aur(self) -> bool {
        self.aur_requested || self.pacman.default_to_aur
    }

    /// Elevation is prefixed exactly when the process is not already
    /// elevated and the alternate-source path is not selected (the
    /// helper manages its own elevation).
    pub open spec fn spec_should_sudo(self) -> bool {
        !self.pacman.is_root && !self.spec_use_aur()
    }

    /// The binary the transaction invokes.
    pub open spec fn spec_binary(self) -> Seq<char> {
        if self.spec_use_aur() {
            self.pacman.aur_binary@
        } else {
            self.pacman.binary@
        }
    }

    /// The invocation up to the package names: the optional elevation
    /// prefix, the selected binary, and the install-operation flag.
    pub open spec fn spec_invocation_head(self) -> Seq<Seq<char>> {
        if self.spec_should_sudo() {
            seq![self.pacman.sudo_binary@, self.spec_binary(), "-Sy"@]
        } else {
            seq![self.spec_binary(), "-Sy"@]
        }
    }

    /// The full invocation: program first, then its arguments.
    pub open spec fn spec_invocation(self) -> Seq<Seq<char>> {
        self.spec_invocation_head() + self.packages_to_add.deep_view()
    }

    /// Append a package to the pending list.  Order is preserved;
    /// duplicates are the caller's responsibility and are kept.
    pub fn add_package(&mut self, package: String)
        ensures
            final(self).packages_to_add@ == old(self).packages_to_add@.push(package),
            final(self).aur_requested == old(self).aur_requested,
            final(self).pacman == old(self).pacman,
    {
        self.packages_to_add.push(package);
    }

    /// Route the whole transaction through the alternate-source helper.
    pub fn make_aur_transaction(&mut self)
        ensures
            final(self).aur_requested,
            final(self).packages_to_add@ == old(self).packages_to_add@,
            final(self).pacman == old(self).pacman,
    {
        self.aur_requested = true;
    }

    /// Whether the alternate-source helper will serve this transaction.
    pub fn should_use_aur(&self) -> (r: bool)
        ensures
            r == self.spec_use_aur(),
    {
        self.aur_requested || self.pacman.default_to_aur
    }

    /// The fixed install-operation flag.
    pub fn install_opts(&self) -> (r: &'static str)
        ensures
            r@ == "-Sy"@,
    {
        "-Sy"
    }

    /// The binary this transaction invokes.
    pub fn binary_name(&self) -> (r: &'static str)
        ensures
            r@ == self.spec_binary(),
    {
        if self.should_use_aur() {
            self.pacman.aur_binary
        } else {
            self.pacman.binary
        }
    }

    /// No package is pending.
    pub fn is_empty(&self) -> (r: bool)
        ensures
            r == (self.packages_to_add@.len() == 0),
    {
        self.packages_to_add.len() == 0
    }

    /// How many packages are pending.
    pub fn missing_package_count(&self) -> (r: usize)
        ensures
            r == self.packages_to_add@.len(),
    {
        self.packages_to_add.len()
    }

    /// Whether the invocation is prefixed with the elevation binary.
    pub fn should_sudo(&self) -> (r: bool)
        ensures
            r == self.spec_should_sudo(),
    {
        !self.pacman.is_root && !self.should_use_aur()
    }

    /// The pending package names, in insertion order.
    pub fn iter_packages(&self) -> (r: &Vec<String>)
        ensures
            r@ == self.packages_to_add@,
    {
        &self.packages_to_add
    }

    /// Render the install invocation: program first, then arguments.
    /// Rendering an empty transaction is a caller error; callers must
    /// check `is_empty` first.
    pub fn render_invocation(&self) -> (r: Vec<String>)
        requires
            self.packages_to_add@.len() > 0,
        ensures
            r.deep_view() == self.spec_invocation(),
    {
        let mut cmd: Vec<String> = Vec::new();
        if self.should_sudo() {
            cmd.push(self.pacman.sudo_binary.to_owned());
        }
        cmd.push(self.binary_name().to_owned());
        cmd.push(self.install_opts().to_owned());
        proof {
            assert(cmd.deep_view() =~= self.spec_invocation_head());
        }
        let mut i: usize = 0;
        proof {
            assert(cmd.deep_view() =~= self.spec_invocation_head()
                + self.packages_to_add.deep_view().take(0));
        }
        while i < self.packages_to_add.len()
            invariant
                i <= self.packages_to_add.len(),
                cmd.deep_view() == self.spec_invocation_head()
                    + self.packages_to_add.deep_view().take(i as int),
            decreases self.packages_to_add.len() - i,
        {
            let ghost prev = cmd.deep_view();
            cmd.push(self.packages_to_add[i].clone());
            proof {
                assert(cmd.deep_view() =~= prev.push(
                    self.packages_to_add.deep_view()[i as int],
                ));
                assert(cmd.deep_view() =~= self.spec_invocation_head()
                    + self.packages_to_add.deep_view().take(i as int + 1));
            }
            i += 1;
        }
        proof {
            assert(self.packages_to_add.deep_view().take(self.packages_to_add@.len() as int)
                =~= self.packages_to_add.deep_view());
            assert(cmd.deep_view() =~= self.spec_invocation());
        }
        cmd
    }
}

/// The human-displayable form of an invocation: each part followed by
/// one space.
pub open spec fn spec_describe(parts: Seq<Seq<char>>) -> Seq<char>
    decreases parts.len(),
{
    if parts.len() == 0 {
        Seq::empty()
    } else {
        parts[0] + seq![' '] + spec_describe(parts.skip(1))
    }
}

impl<'a> PackageTransaction<'a> {
    /// The human-displayable command line for this transaction.
    /// Rendering an empty transaction is a caller error; callers must
    /// check `is_empty` first.
    pub fn describe(&self) -> (r: String)
        requires
            self.packages_to_add@.len() > 0,
        ensures
            r@ == spec_describe(self.spec_invocation()),
    {
        let parts = self.render_invocation();
        let mut out = String::new();
        let mut i: usize = 0;
        proof {
            assert(parts.deep_view().skip(0) =~= parts.deep_view());
        }
        while i < parts.len()
            invariant
                i <= parts.len(),
                parts.deep_view() == self.spec_invocation(),
                parts@.len() == parts.deep_view().len(),
                out@ + spec_describe(parts.deep_view().skip(i as int)) == spec_describe(
                    parts.deep_view(),
                ),
            decreases parts.len() - i,
        {
            let ghost before = out@;
            out.append(parts[i].as_str());
            out.append(" ");
            proof {
                reveal_strlit(" ");
                let dv = parts.deep_view();
                assert(" "@ =~= seq![' ']);
                assert(dv.skip(i as int).skip(1) =~= dv.skip(i as int + 1));
                assert(dv.skip(i as int)[0] == dv[i as int]);
                assert(spec_describe(dv.skip(i as int)) == dv[i as int] + seq![' ']
                    + spec_describe(dv.skip(i as int + 1)));
                assert(out@ =~= before + dv[i as int] + seq![' ']);
                assert(out@ + spec_describe(dv.skip(i as int + 1)) =~= before + spec_describe(
                    dv.skip(i as int),
                ));
            }
            i += 1;
        }
        proof {
            assert(parts.deep_view().skip(parts@.len() as int) =~= Seq::<Seq<char>>::empty());
            assert(out@ + spec_describe(parts.deep_view().skip(parts@.len() as int)) =~= out@);
        }
        out
    }
}

/// The elevation law: a transaction that is not elevated and does not
/// take the alternate-source path is rendered behind the elevation
/// binary; one whose alternate-source flag is set is never rendered
/// behind it, whatever the privilege state.
pub proof fn lemma_render_elevation<'a>(t: PackageTransaction<'a>)
    ensures
        (!t.pacman.is_root && !t.spec_use_aur()) ==> t.spec_invocation() == seq![
            t.pacman.sudo_binary@,
            t.pacman.binary@,
            "-Sy"@,
        ] + t.packages_to_add.deep_view(),
        t.aur_requested ==> t.spec_invocation() == seq![t.pacman.aur_binary@, "-Sy"@]
            + t.packages_to_add.deep_view(),
{
}

} // verus!
