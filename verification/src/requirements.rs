//! Whether the Python requirements of a scenario have to be installed.
//!
//! A stamp file holds a mark of the requirements that were last installed. As long
//! as the mark fits, nothing is installed again.

use std::collections::hash_map::DefaultHasher;
use std::hash::{BuildHasher, BuildHasherDefault};

use vstd::prelude::*;
use vstd::string::StringExecFns;

use crate::paths;
use crate::text;

verus! {

/// What came of the look for the requirements of a scenario.
pub enum Requirements {
    /// There are none.
    Absent,
    /// They could not be read.
    Unreadable,
    /// They say this.
    Text(String),
}

/// How requirements are marked.
#[derive(Clone, Copy)]
pub enum Mark {
    /// By a hash of their text, as 16 hexadecimal digits.
    Hash,
    /// By their text.
    Content,
}

/// What is to be done about the requirements.
pub enum Install {
    /// Nothing; and whether they are seen to.
    Settled(bool),
    /// Install them, and keep this mark where that succeeds.
    Needed(String),
}

/// What [`Requirements`] hold.
pub enum RequirementsModel {
    Absent,
    Unreadable,
    Text(Seq<char>),
}

/// What an [`Install`] holds.
pub enum InstallModel {
    Settled(bool),
    Needed(Seq<char>),
}

impl Requirements {
    pub open spec fn model(self) -> RequirementsModel {
        match self {
            Requirements::Absent => RequirementsModel::Absent,
            Requirements::Unreadable => RequirementsModel::Unreadable,
            Requirements::Text(content) => RequirementsModel::Text(content@),
        }
    }
}

impl Install {
    pub open spec fn model(self) -> InstallModel {
        match self {
            Install::Settled(ready) => InstallModel::Settled(ready),
            Install::Needed(mark) => InstallModel::Needed(mark@),
        }
    }
}

// ----------------------------------------------------------------------- paths

/// The file with the requirements of a scenario.
pub fn requirements_file(base_dir: &str) -> (r: String)
    ensures
        r@ == paths::joined(base_dir@, "requirements.txt"@),
{
    paths::path_join(base_dir, "requirements.txt")
}

/// The file with the mark of what was last installed.
pub fn stamp_file(base_dir: &str) -> (r: String)
    ensures
        r@ == paths::joined(base_dir@, ".requirements_installed"@),
{
    paths::path_join(base_dir, ".requirements_installed")
}

/// The arguments that have `pip3` install the requirements of a scenario.
pub fn install_args(base_dir: &str) -> (r: Vec<String>)
    ensures
        text::texts(r@) == seq![
            "install"@,
            "--quiet"@,
            "-r"@,
            paths::joined(base_dir@, "requirements.txt"@),
        ],
{
    let r = vec![
        String::from_str("install"),
        String::from_str("--quiet"),
        String::from_str("-r"),
        requirements_file(base_dir),
    ];
    assert(text::texts(r@) =~= seq![
        "install"@,
        "--quiet"@,
        "-r"@,
        paths::joined(base_dir@, "requirements.txt"@),
    ]);
    r
}

// ----------------------------------------------------------------------- marks

/// The hash that a `DefaultHasher` in its initial state gives a text.
pub uninterp spec fn default_hash(content: Seq<char>) -> u64;

/// `BuildHasher::hash_one` with a `DefaultHasher` made by its `default`. Such a
/// hasher is the same every time it is made, so the hash depends on the text alone.
/// What the hash is stays unsaid: the algorithm is not documented.
#[verifier::external_body]
fn hash_text(content: &str) -> (r: u64)
    ensures
        r == default_hash(content@),
{
    BuildHasherDefault::<DefaultHasher>::default().hash_one(content)
}

/// A hash as a mark.
pub fn hash_mark(hash: u64) -> (r: String)
    ensures
        r@ == text::hex(hash as nat, 16),
{
    text::show_hex(hash, 16)
}

/// The mark of some requirements.
pub open spec fn mark_of(content: Seq<char>, by: Mark) -> Seq<char> {
    match by {
        Mark::Hash => text::hex(default_hash(content) as nat, 16),
        Mark::Content => content,
    }
}

/// The mark of some requirements.
pub fn fingerprint(content: &str, by: Mark) -> (r: String)
    ensures
        r@ == mark_of(content@, by),
{
    match by {
        Mark::Hash => hash_mark(hash_text(content)),
        Mark::Content => String::from_str(content),
    }
}

// ------------------------------------------------------------------- decisions

/// What is to be done about requirements with that mark, given the stamp: nothing
/// where the stamp holds the mark.
pub open spec fn stamped(mark: Seq<char>, stamp: Option<Seq<char>>) -> InstallModel {
    if stamp == Some(mark) {
        InstallModel::Settled(true)
    } else {
        InstallModel::Needed(mark)
    }
}

/// What is to be done about requirements with that mark, given the stamp.
pub fn check_stamp(mark: String, stamp: Option<String>) -> (r: Install)
    ensures
        r.model() == stamped(mark@, text::opt_text(stamp)),
{
    match stamp {
        Some(stamp) => if text::same(stamp.as_str(), mark.as_str()) {
            Install::Settled(true)
        } else {
            Install::Needed(mark)
        },
        None => Install::Needed(mark),
    }
}

/// What is to be done, given what was found and the stamp. Absent requirements are
/// seen to; unreadable ones are not.
pub open spec fn decided(
    found: RequirementsModel,
    stamp: Option<Seq<char>>,
    by: Mark,
) -> InstallModel {
    match found {
        RequirementsModel::Absent => InstallModel::Settled(true),
        RequirementsModel::Unreadable => InstallModel::Settled(false),
        RequirementsModel::Text(content) => stamped(mark_of(content, by), stamp),
    }
}

/// What is to be done, given what was found and the stamp.
pub fn ensure_requirements(found: Requirements, stamp: Option<String>, by: Mark) -> (r: Install)
    ensures
        r.model() == decided(found.model(), text::opt_text(stamp), by),
{
    match found {
        Requirements::Absent => Install::Settled(true),
        Requirements::Unreadable => Install::Settled(false),
        Requirements::Text(content) => check_stamp(fingerprint(content.as_str(), by), stamp),
    }
}

/// The stamp after an installation: the new mark where it succeeded, else what it
/// was.
pub open spec fn stamp_after(
    stamp: Option<Seq<char>>,
    mark: Seq<char>,
    succeeded: bool,
) -> Option<Seq<char>> {
    if succeeded {
        Some(mark)
    } else {
        stamp
    }
}

/// What to write to the stamp file after an installation, if anything: the mark
/// where it succeeded. Either way the run goes on.
pub fn after_install(mark: String, succeeded: bool) -> (r: Option<String>)
    ensures
        match r {
            Some(written) => succeeded && written@ == mark@,
            None => !succeeded,
        },
{
    if succeeded {
        Some(mark)
    } else {
        None
    }
}

// ------------------------------------------------------------------------ laws

/// Requirements that were installed are not installed again while they stay as
/// they are.
pub proof fn lemma_installed_once(content: Seq<char>, stamp: Option<Seq<char>>, by: Mark)
    ensures
        decided(
            RequirementsModel::Text(content),
            stamp_after(stamp, mark_of(content, by), true),
            by,
        ) == InstallModel::Settled(true),
{
}

/// A failed installation is tried again: it leaves what is to be done as it was.
pub proof fn lemma_failed_install_is_tried_again(
    content: Seq<char>,
    stamp: Option<Seq<char>>,
    by: Mark,
)
    ensures
        decided(
            RequirementsModel::Text(content),
            stamp_after(stamp, mark_of(content, by), false),
            by,
        ) == decided(RequirementsModel::Text(content), stamp, by),
{
}

/// Requirements that changed since the last installation are installed. Where they
/// are marked by a hash, the change must show in it.
pub proof fn lemma_changed_requirements_are_installed(
    installed: Seq<char>,
    content: Seq<char>,
    stamp: Option<Seq<char>>,
    by: Mark,
)
    requires
        installed != content,
    ensures
        by is Content || default_hash(installed) != default_hash(content) ==> decided(
            RequirementsModel::Text(content),
            stamp_after(stamp, mark_of(installed, by), true),
            by,
        ) == InstallModel::Needed(mark_of(content, by)),
{
    if by is Hash && mark_of(installed, by) == mark_of(content, by) {
        reveal_with_fuel(text::hex_range, 17);
        assert(text::hex_range(16) == 0x1_0000_0000_0000_0000);
        text::lemma_hex_is_injective(
            default_hash(installed) as nat,
            default_hash(content) as nat,
            16,
        );
    }
}

/// A scenario without requirements needs nothing installed; one whose requirements
/// cannot be read is not seen to.
pub proof fn lemma_nothing_is_installed_without_requirements(
    found: Requirements,
    stamp: Option<String>,
    by: Mark,
    decision: Install,
)
    requires
        call_ensures(ensure_requirements, (found, stamp, by), decision),
    ensures
        found is Absent ==> decision.model() == InstallModel::Settled(true),
        found is Unreadable ==> decision.model() == InstallModel::Settled(false),
        found matches Requirements::Text(content) ==> {
            &&& text::opt_text(stamp) == Some(mark_of(content@, by)) ==> decision.model()
                == InstallModel::Settled(true)
            &&& text::opt_text(stamp) != Some(mark_of(content@, by)) ==> decision.model()
                == InstallModel::Needed(mark_of(content@, by))
        },
{
}

/// The mark is kept exactly where the installation succeeded.
pub proof fn lemma_mark_is_kept_after_success(
    mark: String,
    succeeded: bool,
    kept: Option<String>,
    stamp: Option<Seq<char>>,
)
    requires
        call_ensures(after_install, (mark, succeeded), kept),
    ensures
        kept is Some <==> succeeded,
        stamp_after(stamp, mark@, succeeded) == (match kept {
            Some(kept) => Some(kept@),
            None => stamp,
        }),
        kept matches Some(kept) ==> kept@ == mark@,
{
}

/// What is installed is what was read: `pip3` is given the file with the requirements,
/// which lies beside the stamp in the directory of the scenario.
pub proof fn lemma_installed_is_what_was_read(
    base_dir: &str,
    file: String,
    stamp: String,
    args: Vec<String>,
)
    requires
        call_ensures(requirements_file, (base_dir,), file),
        call_ensures(stamp_file, (base_dir,), stamp),
        call_ensures(install_args, (base_dir,), args),
    ensures
        text::texts(args@).contains(file@),
        text::texts(args@).len() == 4,
        text::texts(args@)[0] == "install"@,
        text::texts(args@)[2] == "-r"@,
        text::texts(args@)[3] == file@,
        file@ != stamp@,
        paths::file_name(file@) == "requirements.txt"@,
        paths::file_name(stamp@) == ".requirements_installed"@,
        base_dir@.len() > 0 && base_dir@.last() != '/' ==> paths::parent(file@) == base_dir@
            && paths::parent(stamp@) == base_dir@,
{
    reveal_strlit("requirements.txt");
    reveal_strlit(".requirements_installed");
    assert(text::texts(args@)[3] == file@);
    let a = "requirements.txt"@;
    let b = ".requirements_installed"@;
    assert(paths::is_plain_name(a));
    assert(paths::is_plain_name(b));
    paths::lemma_joined_ends_in_name(base_dir@, a);
    paths::lemma_joined_ends_in_name(base_dir@, b);
    assert(a.len() != b.len());
    if base_dir@.len() > 0 && base_dir@.last() != '/' {
        paths::lemma_joined_lies_in_base(base_dir@, a);
        paths::lemma_joined_lies_in_base(base_dir@, b);
    }
}

} // verus!
