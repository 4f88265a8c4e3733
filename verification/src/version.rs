//! The long version text of the command line program.
use vstd::prelude::*;

verus! {

/// What the build recorded about itself, each detail as text.
pub struct BuildDetails {
    pub features: String,
    pub build_timestamp: String,
    pub describe: String,
    pub commit_sha: String,
    pub commit_timestamp: String,
    pub commit_branch: String,
    pub rustc_semver: String,
    pub rustc_channel: String,
    pub rustc_commit_sha: String,
    pub rustc_host_triple: String,
    pub cargo_debug: String,
    pub cargo_opt_level: String,
    pub cargo_target_triple: String,
    pub build_os: String,
}

/// The number of details the long version lists.
pub const DETAIL_COUNT: usize = 14;

/// The details in the order they are listed, each as its label and its value.
pub open spec fn detail_entries(d: BuildDetails) -> Seq<(Seq<char>, Seq<char>)> {
    seq![
        ("features"@, d.features@),
        ("build timestamp"@, d.build_timestamp@),
        ("describe"@, d.describe@),
        ("commit sha"@, d.commit_sha@),
        ("commit timestamp"@, d.commit_timestamp@),
        ("commit branch"@, d.commit_branch@),
        ("rustc semver"@, d.rustc_semver@),
        ("rustc channel"@, d.rustc_channel@),
        ("rustc commit sha"@, d.rustc_commit_sha@),
        ("rustc host triple"@, d.rustc_host_triple@),
        ("cargo debug"@, d.cargo_debug@),
        ("cargo opt-level"@, d.cargo_opt_level@),
        ("cargo target-triple"@, d.cargo_target_triple@),
        ("build os"@, d.build_os@),
    ]
}

/// Each entry on a line of its own, after a line break: its label, `": "` and its value.
pub open spec fn detail_lines(entries: Seq<(Seq<char>, Seq<char>)>) -> Seq<char>
    decreases entries.len(),
{
    if entries.len() == 0 {
        Seq::empty()
    } else {
        detail_lines(entries.drop_last()) + seq!['\n'] + entries.last().0 + seq![':', ' ']
            + entries.last().1
    }
}

/// The label and value of detail `i`.
fn detail_entry(d: &BuildDetails, i: usize) -> (r: (&'static str, &str))
    requires
        i < DETAIL_COUNT,
    ensures
        (r.0@, r.1@) == detail_entries(*d)[i as int],
{
    match i {
        0 => ("features", d.features.as_str()),
        1 => ("build timestamp", d.build_timestamp.as_str()),
        2 => ("describe", d.describe.as_str()),
        3 => ("commit sha", d.commit_sha.as_str()),
        4 => ("commit timestamp", d.commit_timestamp.as_str()),
        5 => ("commit branch", d.commit_branch.as_str()),
        6 => ("rustc semver", d.rustc_semver.as_str()),
        7 => ("rustc channel", d.rustc_channel.as_str()),
        8 => ("rustc commit sha", d.rustc_commit_sha.as_str()),
        9 => ("rustc host triple", d.rustc_host_triple.as_str()),
        10 => ("cargo debug", d.cargo_debug.as_str()),
        11 => ("cargo opt-level", d.cargo_opt_level.as_str()),
        12 => ("cargo target-triple", d.cargo_target_triple.as_str()),
        _ => ("build os", d.build_os.as_str()),
    }
}

/// The long version text: the version, then each build detail on a line of its own.
pub fn long_version(version: &str, details: &BuildDetails) -> (r: String)
    ensures
        r@ == version@ + detail_lines(detail_entries(*details)),
{
    let ghost entries = detail_entries(*details);
    let mut out = String::new();
    crate::text::push_text(&mut out, version);
    let mut i: usize = 0;
    while i < DETAIL_COUNT
        invariant
            i <= DETAIL_COUNT,
            entries == detail_entries(*details),
            entries.len() == DETAIL_COUNT,
            out@ == version@ + detail_lines(entries.take(i as int)),
        decreases DETAIL_COUNT - i,
    {
        let (label, value) = detail_entry(details, i);
        crate::classloader::file_parser::push_char(&mut out, '\n');
        crate::text::push_text(&mut out, label);
        crate::classloader::file_parser::push_char(&mut out, ':');
        crate::classloader::file_parser::push_char(&mut out, ' ');
        crate::text::push_text(&mut out, value);
        assert(entries.take(i + 1).drop_last() =~= entries.take(i as int));
        assert(out@ =~= version@ + detail_lines(entries.take(i + 1)));
        i = i + 1;
    }
    assert(entries.take(DETAIL_COUNT as int) =~= entries);
    out
}

} // verus!
