//! The shell scripts of the phases of a derivation that builds a crate, and
//! the derivation's name.

use vstd::prelude::*;

use crate::rustc::{Crate, DirectDep, Edition, crate_rustc_args, direct_deps_view, opt_str_view, strings_view, build_rustc_args, string_of};
use crate::text::{decimal, push_char, push_str, u64_to_string};
use crate::vendor::SourceId;

verus! {

/// The arguments, each preceded by a space.
pub open spec fn spaced(args: Seq<Seq<char>>) -> Seq<char>
    decreases args.len(),
{
    if args.len() == 0 {
        Seq::empty()
    } else {
        spaced(args.drop_last()) + " "@ + args.last()
    }
}

/// Appends the arguments, each preceded by a space, to `out`.
pub fn push_spaced(out: &mut String, args: &Vec<String>)
    ensures
        final(out)@ == old(out)@ + spaced(strings_view(args@)),
{
    let ghost all = strings_view(args@);
    let ghost start = out@;
    let mut i: usize = 0;
    while i < args.len()
        invariant
            all == strings_view(args@),
            0 <= i <= args@.len(),
            out@ == start + spaced(all.take(i as int)),
        decreases args@.len() - i,
    {
        push_str(out, " ");
        push_str(out, args[i].as_str());
        proof {
            assert(all.take(i + 1).drop_last() =~= all.take(i as int));
            assert(all.take(i + 1).last() == args@[i as int]@);
            assert(out@ =~= start + spaced(all.take(i + 1)));
        }
        i = i + 1;
    }
    assert(all.take(i as int) =~= all);
}

/// The `rustc` command of one crate in the build phase.
pub open spec fn crate_command(
    c: &Crate,
    deps: Seq<crate::rustc::SpecDirectDep>,
    features: Seq<Seq<char>>,
    release: bool,
    target: Option<Seq<char>>,
    edition: Edition,
    dll_ext: Seq<char>,
) -> Seq<char> {
    "\nrustc"@ + spaced(crate_rustc_args(c, deps, features, release, target, edition, dll_ext))
        + " -L dependency=$out/deps -L native=$out/deps/native"@ + " ${EXTRA_RUSTC_ARGS:-}"@
}

/// The `rustc` commands of the crates, in order.
pub open spec fn crate_commands(
    crates: Seq<Crate>,
    deps: Seq<crate::rustc::SpecDirectDep>,
    features: Seq<Seq<char>>,
    release: bool,
    target: Option<Seq<char>>,
    edition: Edition,
    dll_ext: Seq<char>,
) -> Seq<char>
    decreases crates.len(),
{
    if crates.len() == 0 {
        Seq::empty()
    } else {
        crate_commands(crates.drop_last(), deps, features, release, target, edition, dll_ext)
            + crate_command(&crates.last(), deps, features, release, target, edition, dll_ext)
    }
}

/// The build phase: one `rustc` command per crate, each also given the
/// dependency directories and the arguments the build script printed.
#[verifier::rlimit(30)]
pub fn build_phase(
    crates: &Vec<Crate>,
    direct_deps: &Vec<DirectDep>,
    features: &Vec<String>,
    is_release: bool,
    target: Option<&str>,
    edition: Edition,
    dll_ext: &str,
) -> (r: String)
    ensures
        r@ == "runHook preBuild\n"@ + crate_commands(
            crates@,
            direct_deps_view(direct_deps@),
            strings_view(features@),
            is_release,
            opt_str_view(target),
            edition,
            dll_ext@,
        ) + "\nrunHook postBuild"@,
{
    let ghost deps = direct_deps_view(direct_deps@);
    let ghost fs = strings_view(features@);
    let ghost t = opt_str_view(target);
    let mut out = String::new();
    push_str(&mut out, "runHook preBuild\n");
    let ghost start = out@;
    let mut i: usize = 0;
    while i < crates.len()
        invariant
            0 <= i <= crates@.len(),
            deps == direct_deps_view(direct_deps@),
            fs == strings_view(features@),
            t == opt_str_view(target),
            out@ == start + crate_commands(crates@.take(i as int), deps, fs, is_release, t, edition, dll_ext@),
        decreases crates@.len() - i,
    {
        let ghost before = out@;
        push_str(&mut out, "\nrustc");
        let args = build_rustc_args(&crates[i], direct_deps, features, is_release, target, edition, dll_ext);
        push_spaced(&mut out, &args);
        push_str(&mut out, " -L dependency=$out/deps -L native=$out/deps/native");
        push_str(&mut out, " ${EXTRA_RUSTC_ARGS:-}");
        proof {
            let c = crates@.take(i + 1);
            assert(c.drop_last() =~= crates@.take(i as int));
            assert(c.last() == crates@[i as int]);
            assert(out@ =~= start + crate_commands(c, deps, fs, is_release, t, edition, dll_ext@));
        }
        i = i + 1;
    }
    assert(crates@.take(i as int) =~= crates@);
    push_str(&mut out, "\nrunHook postBuild");
    out
}

/// What std's `str::to_uppercase` makes of `s`.
pub uninterp spec fn uppercase(s: Seq<char>) -> Seq<char>;

/// The ASCII letters of `s` in upper case, the other characters unchanged.
pub open spec fn ascii_upper(s: Seq<char>) -> Seq<char> {
    s.map_values(|c: char| if 'a' <= c <= 'z' {
        ((c as int) - 32) as char
    } else {
        c
    })
}

/// The characters are ASCII.
pub open spec fn is_ascii_text(s: Seq<char>) -> bool {
    forall|i: int| 0 <= i < s.len() ==> (s[i] as int) < 128
}

/// The upper case of `s` by the Unicode case mapping (std's
/// `str::to_uppercase`). The result is named; of ASCII text it is stated
/// that only the letters `a` to `z` change, to `A` to `Z`.
#[verifier::external_body]
fn to_uppercase(s: &str) -> (r: String)
    ensures
        r@ == uppercase(s@),
        is_ascii_text(s@) ==> r@ == ascii_upper(s@),
{
    s.to_uppercase()
}

/// `s` with every `-` replaced by `_`.
pub open spec fn dashes_to_underscores(s: Seq<char>) -> Seq<char> {
    s.map_values(|c: char| if c == '-' {
        '_'
    } else {
        c
    })
}

/// The name of the environment variable that tells a build script the
/// feature `f` is enabled, without its prefix: the feature in upper case,
/// dashes turned into underscores.
pub fn feature_env_name(f: &str) -> (r: String)
    ensures
        r@ == dashes_to_underscores(uppercase(f@)),
        is_ascii_text(f@) ==> r@ == dashes_to_underscores(ascii_upper(f@)),
{
    let upper = to_uppercase(f);
    let chars = crate::text::chars_of(upper.as_str());
    let mut out = String::new();
    let mut i: usize = 0;
    while i < chars.len()
        invariant
            0 <= i <= chars@.len(),
            chars@ == upper@,
            out@ == dashes_to_underscores(chars@.take(i as int)),
        decreases chars@.len() - i,
    {
        if chars[i] == '-' {
            push_char(&mut out, '_');
        } else {
            push_char(&mut out, chars[i]);
        }
        assert(dashes_to_underscores(chars@.take(i + 1)) =~= dashes_to_underscores(chars@.take(i as int)).push(
            if chars@[i as int] == '-' { '_' } else { chars@[i as int] },
        ));
        i = i + 1;
    }
    assert(chars@.take(i as int) =~= chars@);
    out
}

/// The `export` lines that enable the features for a build script.
pub open spec fn feature_exports(features: Seq<Seq<char>>) -> Seq<char>
    decreases features.len(),
{
    if features.len() == 0 {
        Seq::empty()
    } else {
        feature_exports(features.drop_last()) + "export CARGO_FEATURE_"@ + dashes_to_underscores(
            uppercase(features.last()),
        ) + "=1\n"@
    }
}

/// The script that runs a compiled build script and reads what it printed.
pub open spec fn run_build_script(name: Seq<char>, version: Seq<char>) -> Seq<char> {
    "export OUT_DIR=$out/out\nmkdir -p $OUT_DIR\n$out/build_script_build | tee $out/build_script_output.txt\nparse-build-script-output \\\n    $out/build_script_output.txt \\\n    $out/common.sh \\\n    $out/lib.sh \\\n    $out/bin.sh \\\n    EXTRA_RUSTC_ARGS \\\n    "@
        + name + " \\\n    "@ + version + "\n"@
}

/// The install phase: for a build script, enabling its features, running it
/// and reading its output.
pub fn install_phase(features: &Vec<String>, name: &str, version: &str, is_build_script: bool) -> (r: String)
    ensures
        r@ == "runHook preInstall\n"@ + (if is_build_script {
            feature_exports(strings_view(features@)) + run_build_script(name@, version@)
        } else {
            Seq::empty()
        }) + "runHook postInstall"@,
{
    let mut out = String::new();
    push_str(&mut out, "runHook preInstall\n");
    let ghost start = out@;
    if is_build_script {
        let ghost fs = strings_view(features@);
        let mut i: usize = 0;
        while i < features.len()
            invariant
                0 <= i <= features@.len(),
                fs == strings_view(features@),
                out@ == start + feature_exports(fs.take(i as int)),
            decreases features@.len() - i,
        {
            push_str(&mut out, "export CARGO_FEATURE_");
            let env = feature_env_name(features[i].as_str());
            push_str(&mut out, env.as_str());
            push_str(&mut out, "=1\n");
            proof {
                let t = fs.take(i + 1);
                assert(t.drop_last() =~= fs.take(i as int));
                assert(t.last() == features@[i as int]@);
                assert(out@ =~= start + feature_exports(t));
            }
            i = i + 1;
        }
        assert(fs.take(i as int) =~= fs);
        push_str(&mut out, "export OUT_DIR=$out/out\nmkdir -p $OUT_DIR\n$out/build_script_build | tee $out/build_script_output.txt\nparse-build-script-output \\\n    $out/build_script_output.txt \\\n    $out/common.sh \\\n    $out/lib.sh \\\n    $out/bin.sh \\\n    EXTRA_RUSTC_ARGS \\\n    ");
        push_str(&mut out, name);
        push_str(&mut out, " \\\n    ");
        push_str(&mut out, version);
        push_str(&mut out, "\n");
    }
    push_str(&mut out, "runHook postInstall");
    assert(out@ =~= "runHook preInstall\n"@ + (if is_build_script {
        feature_exports(strings_view(features@)) + run_build_script(name@, version@)
    } else {
        Seq::empty()
    }) + "runHook postInstall"@);
    out
}

/// The lines that gather what the Rust dependency whose output path is
/// `out` provides: its native and Rust dependencies, and its libraries.
pub open spec fn rust_dep_lines(out: Seq<char>, dll_ext: Seq<char>) -> Seq<char> {
    "cp -rn "@ + out + "/deps/native/. $out/native\ncp -rn "@ + out + "/deps/. $out\n\nfor dep in "@ + out
        + "/lib*.{rlib,"@ + dll_ext + "}; do\n  ln -sf $dep $out\ndone\n"@
}

/// The lines that link the shared and static libraries of the native
/// dependency whose output path is `out` under `native`.
pub open spec fn native_dep_lines(out: Seq<char>) -> Seq<char> {
    "if [ -d \""@ + out + "/lib\" ]; then\n  for dep in \""@ + out
        + "/lib\"/lib*.{so,so.*,dylib,a}; do\n    ln -sf $dep $out/native\n  done\nfi\n\n# Only check lib64/ if it's not a symlink. If it is it'll point\n# to lib/, so we can skip it.\nif [ -d \""@
        + out + "/lib64\" ] && [ ! -L \""@ + out + "/lib64\" ]; then\n  for dep in \""@ + out
        + "/lib64\"/lib*.{so,so.*,dylib,a}; do\n    ln -sf $dep $out/native\n  done\nfi\n"@
}

/// The lines for each of the Rust dependencies whose output paths are
/// `outs`, in order.
pub open spec fn rust_deps_lines(outs: Seq<Seq<char>>, dll_ext: Seq<char>) -> Seq<char>
    decreases outs.len(),
{
    if outs.len() == 0 {
        Seq::empty()
    } else {
        rust_deps_lines(outs.drop_last(), dll_ext) + rust_dep_lines(outs.last(), dll_ext)
    }
}

/// The lines for each of the native dependencies whose output paths are
/// `outs`, in order.
pub open spec fn native_deps_lines(outs: Seq<Seq<char>>) -> Seq<char>
    decreases outs.len(),
{
    if outs.len() == 0 {
        Seq::empty()
    } else {
        native_deps_lines(outs.drop_last()) + native_dep_lines(outs.last())
    }
}

/// The install phase of the derivation that gathers the dependencies of a
/// crate: for each direct Rust dependency, its outputs and its own
/// dependencies; for each library among the build inputs, its shared and
/// static libraries, under `native`. `dll_ext` is the extension of dynamic
/// libraries on the platform.
pub fn deps_install_phase(rust_deps: &Vec<String>, native_deps: &Vec<String>, dll_ext: &str) -> (r: String)
    ensures
        r@ == "runHook preInstall\nmkdir -p $out\nmkdir -p $out/native\nshopt -s nullglob\n"@ + rust_deps_lines(
            strings_view(rust_deps@),
            dll_ext@,
        ) + native_deps_lines(strings_view(native_deps@)) + "runHook postInstall"@,
{
    let mut out = string_of("runHook preInstall\nmkdir -p $out\nmkdir -p $out/native\nshopt -s nullglob\n");
    let ghost start = out@;
    let ghost rs = strings_view(rust_deps@);
    let mut i: usize = 0;
    while i < rust_deps.len()
        invariant
            i <= rust_deps@.len(),
            rs == strings_view(rust_deps@),
            out@ == start + rust_deps_lines(rs.take(i as int), dll_ext@),
        decreases rust_deps@.len() - i,
    {
        let p = rust_deps[i].as_str();
        push_str(&mut out, "cp -rn ");
        push_str(&mut out, p);
        push_str(&mut out, "/deps/native/. $out/native\ncp -rn ");
        push_str(&mut out, p);
        push_str(&mut out, "/deps/. $out\n\nfor dep in ");
        push_str(&mut out, p);
        push_str(&mut out, "/lib*.{rlib,");
        push_str(&mut out, dll_ext);
        push_str(&mut out, "}; do\n  ln -sf $dep $out\ndone\n");
        proof {
            let t = rs.take(i + 1);
            assert(t.drop_last() =~= rs.take(i as int));
            assert(t.last() == rust_deps@[i as int]@);
            assert(out@ =~= start + rust_deps_lines(t, dll_ext@));
        }
        i = i + 1;
    }
    assert(rs.take(i as int) =~= rs);
    let ghost middle = out@;
    let ghost ns = strings_view(native_deps@);
    let mut j: usize = 0;
    while j < native_deps.len()
        invariant
            j <= native_deps@.len(),
            ns == strings_view(native_deps@),
            out@ == middle + native_deps_lines(ns.take(j as int)),
        decreases native_deps@.len() - j,
    {
        let p = native_deps[j].as_str();
        push_str(&mut out, "if [ -d \"");
        push_str(&mut out, p);
        push_str(&mut out, "/lib\" ]; then\n  for dep in \"");
        push_str(&mut out, p);
        push_str(
            &mut out,
            "/lib\"/lib*.{so,so.*,dylib,a}; do\n    ln -sf $dep $out/native\n  done\nfi\n\n# Only check lib64/ if it's not a symlink. If it is it'll point\n# to lib/, so we can skip it.\nif [ -d \"",
        );
        push_str(&mut out, p);
        push_str(&mut out, "/lib64\" ] && [ ! -L \"");
        push_str(&mut out, p);
        push_str(&mut out, "/lib64\" ]; then\n  for dep in \"");
        push_str(&mut out, p);
        push_str(&mut out, "/lib64\"/lib*.{so,so.*,dylib,a}; do\n    ln -sf $dep $out/native\n  done\nfi\n");
        proof {
            let t = ns.take(j + 1);
            assert(t.drop_last() =~= ns.take(j as int));
            assert(t.last() == native_deps@[j as int]@);
            assert(out@ =~= middle + native_deps_lines(t));
        }
        j = j + 1;
    }
    assert(ns.take(j as int) =~= ns);
    push_str(&mut out, "runHook postInstall");
    out
}

/// The name of the derivation that gathers the dependencies of a crate.
pub fn deps_derivation_name(name: &str, version: &str) -> (r: String)
    ensures
        r@ == name@ + "-"@ + version@ + "-deps"@,
{
    let mut out = string_of(name);
    push_str(&mut out, "-");
    push_str(&mut out, version);
    push_str(&mut out, "-deps");
    out
}

/// What a derivation builds.
pub enum DerivationKind {
    BuildScript,
    Library,
    /// The binaries of a package; the number of them.
    Binaries(usize),
}

/// The last part of the name of a derivation, after the package's name and
/// version.
pub open spec fn spec_suffix(kind: DerivationKind) -> Seq<char> {
    match kind {
        DerivationKind::BuildScript => "build"@,
        DerivationKind::Library => "lib"@,
        DerivationKind::Binaries(n) => if n > 1 {
            "bins"@
        } else {
            "bin"@
        },
    }
}

impl DerivationKind {
    /// The last part of the name of the derivation.
    pub fn derivation_name_suffix(&self) -> (r: &'static str)
        ensures
            r@ == spec_suffix(*self),
    {
        match self {
            DerivationKind::BuildScript => "build",
            DerivationKind::Library => "lib",
            DerivationKind::Binaries(n) => if *n > 1 {
                "bins"
            } else {
                "bin"
            },
        }
    }

    /// The directory, from the root of the build, the built files are put
    /// in.
    pub fn out_dir(&self) -> (r: &'static str)
        ensures
            r@ == match *self {
                DerivationKind::BuildScript => "target/build"@,
                DerivationKind::Library => "target/lib"@,
                DerivationKind::Binaries(_) => "target/bin"@,
            },
    {
        match self {
            DerivationKind::BuildScript => "target/build",
            DerivationKind::Library => "target/lib",
            DerivationKind::Binaries(_) => "target/bin",
        }
    }

    /// Whether the derivation builds a build script.
    pub fn is_build_script(&self) -> (r: bool)
        ensures
            r == (*self is BuildScript),
    {
        match self {
            DerivationKind::BuildScript => true,
            _ => false,
        }
    }

    /// Whether the derivation builds a library.
    pub fn is_library(&self) -> (r: bool)
        ensures
            r == (*self is Library),
    {
        match self {
            DerivationKind::Library => true,
            _ => false,
        }
    }
}

/// The name of a derivation: the package's name, its version and what it
/// builds, joined with dashes.
pub fn derivation_name(name: &str, version: &str, kind: &DerivationKind) -> (r: String)
    ensures
        r@ == name@ + "-"@ + version@ + "-"@ + spec_suffix(*kind),
{
    let mut out = String::new();
    push_str(&mut out, name);
    push_str(&mut out, "-");
    push_str(&mut out, version);
    push_str(&mut out, "-");
    push_str(&mut out, kind.derivation_name_suffix());
    out
}

/// A character a POSIX shell takes literally: an ASCII letter or digit, or
/// one of `-_=/,.+`.
pub open spec fn shell_safe(c: char) -> bool {
    ||| 'a' <= c <= 'z'
    ||| 'A' <= c <= 'Z'
    ||| '0' <= c <= '9'
    ||| c == '-'
    ||| c == '_'
    ||| c == '='
    ||| c == '/'
    ||| c == ','
    ||| c == '.'
    ||| c == '+'
}

/// A character inside single quotes: a single quote or `!` closes the
/// quotes, is escaped with a backslash and the quotes reopened.
pub open spec fn quote_char(c: char) -> Seq<char> {
    if c == '\'' || c == '!' {
        seq!['\'', '\\', c, '\'']
    } else {
        seq![c]
    }
}

/// The characters of `s`, each as [`quote_char`] writes it.
pub open spec fn quoted_chars(s: Seq<char>) -> Seq<char>
    decreases s.len(),
{
    if s.len() == 0 {
        Seq::empty()
    } else {
        quoted_chars(s.drop_last()) + quote_char(s.last())
    }
}

/// How shell-escape writes `s` for a POSIX shell: unchanged if it is not
/// empty and every character is safe, otherwise between single quotes.
pub open spec fn shell_escaped(s: Seq<char>) -> Seq<char> {
    if s.len() > 0 && forall|i: int| 0 <= i < s.len() ==> shell_safe(#[trigger] s[i]) {
        s
    } else {
        seq!['\''] + quoted_chars(s) + seq!['\'']
    }
}

/// Escapes `s` for a POSIX shell with shell-escape's `unix::escape` (what
/// its `escape` does on Unix): the text is returned unchanged if it is not
/// empty and made of safe characters only, and otherwise put between single
/// quotes, each single quote and `!` written as a quote, a backslash, the
/// character and a quote.
#[verifier::external_body]
fn shell_escape(s: &str) -> (r: String)
    ensures
        r@ == shell_escaped(s@),
{
    shell_escape::unix::escape(s.into()).into_owned()
}

/// The attributes of a package that its build reads.
#[derive(Clone, Debug)]
pub struct PackageAttrs {
    pub authors: Vec<String>,
    pub description: Option<String>,
    pub edition: Edition,
    pub features: Vec<String>,
    pub homepage: Option<String>,
    pub license: Option<String>,
    pub license_file: Option<String>,
    pub links: Option<String>,
    pub name: String,
    pub readme: Option<String>,
    pub repository: Option<String>,
    pub rust_version: Option<String>,
    /// The version, as a semantic version prints.
    pub version: String,
    pub version_major: u64,
    pub version_minor: u64,
    pub version_patch: u64,
    pub version_pre: String,
}

impl PackageAttrs {
    /// The id of the package's sources: its name and version.
    pub fn source_id(&self) -> (r: SourceId)
        ensures
            r.package_name@ == self.name@,
            r.version@ == self.version@,
    {
        SourceId { package_name: self.name.clone(), version: self.version.clone() }
    }
}

/// The platform a crate is built on and for, as the standard environment
/// describes it.
#[derive(Clone, Debug)]
pub struct PlatformInfo {
    pub target_arch: String,
    pub is_cpu_little_endian: bool,
    pub target_os: String,
    pub target_pointer_width: u8,
    pub target_vendor: String,
    /// The `rustc` target of the build platform.
    pub host: String,
    /// The `rustc` target of the host platform.
    pub target: String,
}

/// An optional text, or nothing.
pub open spec fn or_empty(t: Option<String>) -> Seq<char> {
    match t {
        Some(s) => s@,
        None => Seq::empty(),
    }
}

/// The text `t`, or nothing.
fn str_or_empty(t: &Option<String>) -> (r: &str)
    ensures
        r@ == or_empty(*t),
{
    proof {
        reveal_strlit("");
    }
    match t {
        Some(s) => s.as_str(),
        None => "",
    }
}

/// The authors joined with colons.
pub open spec fn joined_authors(authors: Seq<Seq<char>>) -> Seq<char>
    decreases authors.len(),
{
    if authors.len() == 0 {
        Seq::empty()
    } else if authors.len() == 1 {
        authors[0]
    } else {
        joined_authors(authors.drop_last()) + ":"@ + authors.last()
    }
}

/// The authors joined with colons.
pub fn join_authors(authors: &Vec<String>) -> (r: String)
    ensures
        r@ == joined_authors(strings_view(authors@)),
{
    let ghost all = strings_view(authors@);
    let mut out = String::new();
    let mut i: usize = 0;
    while i < authors.len()
        invariant
            all == strings_view(authors@),
            0 <= i <= authors@.len(),
            out@ == joined_authors(all.take(i as int)),
        decreases authors@.len() - i,
    {
        proof {
            let t = all.take(i + 1);
            assert(t.drop_last() =~= all.take(i as int));
            assert(t.last() == authors@[i as int]@);
            if i == 0 {
                assert(all.take(0) =~= Seq::<Seq<char>>::empty());
            }
        }
        if i > 0 {
            push_str(&mut out, ":");
        }
        push_str(&mut out, authors[i].as_str());
        assert(out@ =~= joined_authors(all.take(i + 1)));
        i = i + 1;
    }
    assert(all.take(i as int) =~= all);
    out
}

/// The escaped description, or nothing.
pub open spec fn description_text(d: Option<String>) -> Seq<char> {
    match d {
        Some(s) => shell_escaped(s@),
        None => Seq::empty(),
    }
}

/// The escaped description, or nothing.
fn escape_description(d: &Option<String>) -> (r: String)
    ensures
        r@ == description_text(*d),
{
    match d {
        Some(s) => shell_escape(s.as_str()),
        None => String::new(),
    }
}

/// The lines that read what the build script found, if there is one.
pub open spec fn build_script_lines(out_path: Option<Seq<char>>, is_library: bool) -> Seq<char> {
    match out_path {
        Some(o) => "export OUT_DIR="@ + o + "/out\nsource "@ + o + "/"@ + (if is_library {
            "lib.sh"@
        } else {
            "bin.sh"@
        }) + "\n"@,
        None => Seq::empty(),
    }
}

/// A derivation reads what the build script found from the files the build
/// script's run writes: `parse-build-script-output` is given the output
/// file, then the files for all crates, for libraries and for binaries, in
/// that order, and a library's derivation sources the file given for
/// libraries, a binaries derivation the one given for binaries.
pub proof fn lemma_build_script_files(out: Seq<char>, name: Seq<char>, version: Seq<char>)
    ensures
        exists|lib_file: Seq<char>, bin_file: Seq<char>|
            {
                &&& build_script_lines(Some(out), true) == "export OUT_DIR="@ + out + "/out\nsource "@ + out + "/"@
                    + lib_file + "\n"@
                &&& build_script_lines(Some(out), false) == "export OUT_DIR="@ + out + "/out\nsource "@ + out + "/"@
                    + bin_file + "\n"@
                &&& run_build_script(name, version)
                    == "export OUT_DIR=$out/out\nmkdir -p $OUT_DIR\n$out/build_script_build | tee $out/build_script_output.txt\nparse-build-script-output \\\n    $out/build_script_output.txt \\\n    $out/common.sh \\\n    $out/"@
                    + lib_file + " \\\n    $out/"@ + bin_file + " \\\n    EXTRA_RUSTC_ARGS \\\n    "@ + name + " \\\n    "@
                    + version + "\n"@
            },
{
    reveal_strlit("lib.sh");
    reveal_strlit("bin.sh");
    reveal_strlit(" \\\n    $out/");
    reveal_strlit(" \\\n    EXTRA_RUSTC_ARGS \\\n    ");
    reveal_strlit(
        "export OUT_DIR=$out/out\nmkdir -p $OUT_DIR\n$out/build_script_build | tee $out/build_script_output.txt\nparse-build-script-output \\\n    $out/build_script_output.txt \\\n    $out/common.sh \\\n    $out/lib.sh \\\n    $out/bin.sh \\\n    EXTRA_RUSTC_ARGS \\\n    ",
    );
    reveal_strlit(
        "export OUT_DIR=$out/out\nmkdir -p $OUT_DIR\n$out/build_script_build | tee $out/build_script_output.txt\nparse-build-script-output \\\n    $out/build_script_output.txt \\\n    $out/common.sh \\\n    $out/",
    );
    let lib_file = "lib.sh"@;
    let bin_file = "bin.sh"@;
    let head = "export OUT_DIR=$out/out\nmkdir -p $OUT_DIR\n$out/build_script_build | tee $out/build_script_output.txt\nparse-build-script-output \\\n    $out/build_script_output.txt \\\n    $out/common.sh \\\n    $out/"@;
    let whole = "export OUT_DIR=$out/out\nmkdir -p $OUT_DIR\n$out/build_script_build | tee $out/build_script_output.txt\nparse-build-script-output \\\n    $out/build_script_output.txt \\\n    $out/common.sh \\\n    $out/lib.sh \\\n    $out/bin.sh \\\n    EXTRA_RUSTC_ARGS \\\n    "@;
    assert(whole =~= head + lib_file + " \\\n    $out/"@ + bin_file + " \\\n    EXTRA_RUSTC_ARGS \\\n    "@);
    assert(run_build_script(name, version) =~= head + lib_file + " \\\n    $out/"@ + bin_file
        + " \\\n    EXTRA_RUSTC_ARGS \\\n    "@ + name + " \\\n    "@ + version + "\n"@);
}

/// Appends the lines that read what the build script found.
fn push_build_script_lines(out: &mut String, out_path: Option<&str>, is_library: bool)
    ensures
        final(out)@ == old(out)@ + build_script_lines(opt_str_view(out_path), is_library),
{
    let ghost start = out@;
    match out_path {
        Some(o) => {
            push_str(out, "export OUT_DIR=");
            push_str(out, o);
            push_str(out, "/out\nsource ");
            push_str(out, o);
            push_str(out, "/");
            push_str(out, if is_library { "lib.sh" } else { "bin.sh" });
            push_str(out, "\n");
        },
        None => {},
    }
    assert(out@ =~= start + build_script_lines(opt_str_view(out_path), is_library));
}

/// The configure phase: the environment Cargo gives build scripts and
/// compilations, what the build script found, and the link to the
/// dependencies.
pub open spec fn configure_text(
    p: PackageAttrs,
    build_script_out: Option<Seq<char>>,
    is_library: bool,
    release: bool,
    deps_out: Seq<char>,
    t: PlatformInfo,
) -> Seq<char> {
    "runHook preConfigure\nexport CARGO_CFG_TARGET_ARCH="@ + t.target_arch@
        + "\nexport CARGO_CFG_TARGET_ENDIAN="@ + (if t.is_cpu_little_endian {
        "little"@
    } else {
        "big"@
    })
        + "\nexport CARGO_CFG_TARGET_ENV=\"gnu\"\nexport CARGO_CFG_TARGET_FAMILY=\"unix\"\nexport CARGO_CFG_TARGET_OS="@
        + t.target_os@ + "\nexport CARGO_CFG_TARGET_POINTER_WIDTH="@ + decimal(t.target_pointer_width as int)
        + "\nexport CARGO_CFG_TARGET_VENDOR="@ + t.target_vendor@
        + "\nexport CARGO_CFG_UNIX=1\nexport CARGO_MANIFEST_DIR=$(pwd)\nexport CARGO_MANIFEST_LINKS="@
        + or_empty(p.links) + "\nexport CARGO_PKG_AUTHORS=\""@ + joined_authors(strings_view(p.authors@))
        + "\"\nexport CARGO_PKG_DESCRIPTION="@ + description_text(p.description)
        + "\nexport CARGO_PKG_HOMEPAGE=\""@ + or_empty(p.homepage) + "\"\nexport CARGO_PKG_LICENSE=\""@
        + or_empty(p.license) + "\"\nexport CARGO_PKG_LICENSE_FILE=\""@ + or_empty(p.license_file)
        + "\"\nexport CARGO_PKG_NAME="@ + p.name@ + "\nexport CARGO_PKG_README=\""@ + or_empty(p.readme)
        + "\"\nexport CARGO_PKG_REPOSITORY=\""@ + or_empty(p.repository)
        + "\"\nexport CARGO_PKG_RUST_VERSION=\""@ + or_empty(p.rust_version)
        + "\"\nexport CARGO_PKG_VERSION="@ + p.version@ + "\nexport CARGO_PKG_VERSION_MAJOR="@
        + decimal(p.version_major as int) + "\nexport CARGO_PKG_VERSION_MINOR="@ + decimal(p.version_minor as int)
        + "\nexport CARGO_PKG_VERSION_PATCH="@ + decimal(p.version_patch as int)
        + "\nexport CARGO_PKG_VERSION_PRE=\""@ + p.version_pre@ + "\"\nexport DEBUG="@ + (if release {
        "1"@
    } else {
        ""@
    }) + "\nexport HOST="@ + t.host@ + "\nexport NUM_JOBS=$NIX_BUILD_CORES\nexport OPT_LEVEL="@ + (if release {
        "3"@
    } else {
        "0"@
    }) + "\nexport PROFILE="@ + (if release {
        "release"@
    } else {
        "debug"@
    }) + "\nexport RUSTC=\"rustc\"\nexport RUSTDOC=\"rustdoc\"\nexport TARGET="@ + t.target@ + "\n"@
        + build_script_lines(build_script_out, is_library) + "mkdir -p $out\nln -s "@ + deps_out
        + " $out/deps\nrunHook postConfigure"@
}

/// The configure phase of a derivation: `build_script_out` is the output
/// path of the build script's derivation, if there is one, and `deps_out`
/// that of the derivation gathering the dependencies.
pub fn configure_phase(
    package: &PackageAttrs,
    build_script_out: Option<&str>,
    is_library: bool,
    is_release: bool,
    deps_out: &str,
    platform: &PlatformInfo,
) -> (r: String)
    ensures
        r@ == configure_text(*package, opt_str_view(build_script_out), is_library, is_release, deps_out@, *platform),
{
    let p = package;
    let t = platform;
    let width = u64_to_string(t.target_pointer_width as u64);
    let authors = join_authors(&p.authors);
    let description = escape_description(&p.description);
    let major = u64_to_string(p.version_major);
    let minor = u64_to_string(p.version_minor);
    let patch = u64_to_string(p.version_patch);
    let mut out = String::new();
    push_str(&mut out, "runHook preConfigure\nexport CARGO_CFG_TARGET_ARCH=");
    assert(out@ =~= "runHook preConfigure\nexport CARGO_CFG_TARGET_ARCH="@);
    push_str(&mut out, t.target_arch.as_str());
    push_str(&mut out, "\nexport CARGO_CFG_TARGET_ENDIAN=");
    push_str(&mut out, if t.is_cpu_little_endian { "little" } else { "big" });
    push_str(&mut out, "\nexport CARGO_CFG_TARGET_ENV=\"gnu\"\nexport CARGO_CFG_TARGET_FAMILY=\"unix\"\nexport CARGO_CFG_TARGET_OS=");
    push_str(&mut out, t.target_os.as_str());
    push_str(&mut out, "\nexport CARGO_CFG_TARGET_POINTER_WIDTH=");
    push_str(&mut out, width.as_str());
    push_str(&mut out, "\nexport CARGO_CFG_TARGET_VENDOR=");
    push_str(&mut out, t.target_vendor.as_str());
    push_str(&mut out, "\nexport CARGO_CFG_UNIX=1\nexport CARGO_MANIFEST_DIR=$(pwd)\nexport CARGO_MANIFEST_LINKS=");
    push_str(&mut out, str_or_empty(&p.links));
    push_str(&mut out, "\nexport CARGO_PKG_AUTHORS=\"");
    push_str(&mut out, authors.as_str());
    push_str(&mut out, "\"\nexport CARGO_PKG_DESCRIPTION=");
    push_str(&mut out, description.as_str());
    push_str(&mut out, "\nexport CARGO_PKG_HOMEPAGE=\"");
    push_str(&mut out, str_or_empty(&p.homepage));
    push_str(&mut out, "\"\nexport CARGO_PKG_LICENSE=\"");
    push_str(&mut out, str_or_empty(&p.license));
    push_str(&mut out, "\"\nexport CARGO_PKG_LICENSE_FILE=\"");
    push_str(&mut out, str_or_empty(&p.license_file));
    push_str(&mut out, "\"\nexport CARGO_PKG_NAME=");
    push_str(&mut out, p.name.as_str());
    push_str(&mut out, "\nexport CARGO_PKG_README=\"");
    push_str(&mut out, str_or_empty(&p.readme));
    push_str(&mut out, "\"\nexport CARGO_PKG_REPOSITORY=\"");
    push_str(&mut out, str_or_empty(&p.repository));
    push_str(&mut out, "\"\nexport CARGO_PKG_RUST_VERSION=\"");
    push_str(&mut out, str_or_empty(&p.rust_version));
    push_str(&mut out, "\"\nexport CARGO_PKG_VERSION=");
    push_str(&mut out, p.version.as_str());
    push_str(&mut out, "\nexport CARGO_PKG_VERSION_MAJOR=");
    push_str(&mut out, major.as_str());
    push_str(&mut out, "\nexport CARGO_PKG_VERSION_MINOR=");
    push_str(&mut out, minor.as_str());
    push_str(&mut out, "\nexport CARGO_PKG_VERSION_PATCH=");
    push_str(&mut out, patch.as_str());
    push_str(&mut out, "\nexport CARGO_PKG_VERSION_PRE=\"");
    push_str(&mut out, p.version_pre.as_str());
    push_str(&mut out, "\"\nexport DEBUG=");
    push_str(&mut out, if is_release { "1" } else { "" });
    push_str(&mut out, "\nexport HOST=");
    push_str(&mut out, t.host.as_str());
    push_str(&mut out, "\nexport NUM_JOBS=$NIX_BUILD_CORES\nexport OPT_LEVEL=");
    push_str(&mut out, if is_release { "3" } else { "0" });
    push_str(&mut out, "\nexport PROFILE=");
    push_str(&mut out, if is_release { "release" } else { "debug" });
    push_str(&mut out, "\nexport RUSTC=\"rustc\"\nexport RUSTDOC=\"rustdoc\"\nexport TARGET=");
    push_str(&mut out, t.target.as_str());
    push_str(&mut out, "\n");
    push_build_script_lines(&mut out, build_script_out, is_library);
    push_str(&mut out, "mkdir -p $out\nln -s ");
    push_str(&mut out, deps_out);
    push_str(&mut out, " $out/deps\nrunHook postConfigure");
    out
}

} // verus!
