//! Options of the `version` command, and the listing of plugin versions.
use vstd::prelude::*;
use vstd::string::*;

verus! {

/// Options of the `version` command.
#[derive(Debug, Clone, Copy, Default)]
pub struct VersionOpt {
    /// Output in JSON format
    pub json: bool,
}

/// What a plugin reports of itself, with the file name of its executable
/// (`None` where its path has no file name).
#[derive(Debug, Clone)]
pub struct SubcommandMetadata {
    pub title: String,
    pub version: String,
    pub file_name: Option<String>,
}

/// The label of a plugin: `<title> (<file name>)`.
pub open spec fn plugin_label(title: Seq<char>, file_name: Seq<char>) -> Seq<char> {
    title + " ("@ + file_name + ")"@
}

/// The listing of the plugins that have a file name, in order, as
/// (label, version) pairs.
pub open spec fn plugin_listing(ms: Seq<SubcommandMetadata>) -> Seq<(Seq<char>, Seq<char>)>
    decreases ms.len(),
{
    if ms.len() == 0 {
        Seq::empty()
    } else {
        let m = ms.last();
        let rest = plugin_listing(ms.drop_last());
        match m.file_name {
            Some(f) => rest.push((plugin_label(m.title@, f@), m.version@)),
            None => rest,
        }
    }
}

pub open spec fn pair_view(p: (String, String)) -> (Seq<char>, Seq<char>) {
    (p.0@, p.1@)
}

impl VersionOpt {
    /// Lists the plugins' labels and versions; `None` where their metadata
    /// could not be read.
    pub fn format_subcommand_metadata(&self, metadata: Option<Vec<SubcommandMetadata>>) -> (r: Option<Vec<(String, String)>>)
        ensures
            match metadata {
                None => r is None,
                Some(ms) => r is Some && r->Some_0@.map_values(|p: (String, String)| pair_view(p))
                    == plugin_listing(ms@),
            },
    {
        let metadata = match metadata {
            Some(m) => m,
            None => return None,
        };
        let mut formats: Vec<(String, String)> = Vec::new();
        let mut i: usize = 0;
        while i < metadata.len()
            invariant
                i <= metadata@.len(),
                formats@.map_values(|p: (String, String)| pair_view(p))
                    == plugin_listing(metadata@.subrange(0, i as int)),
            decreases metadata@.len() - i,
        {
            let cmd = &metadata[i];
            assert(metadata@.subrange(0, i + 1).drop_last() == metadata@.subrange(0, i as int));
            match &cmd.file_name {
                Some(f) => {
                    let mut left = cmd.title.clone();
                    left.append(" (");
                    left.append(f.as_str());
                    left.append(")");
                    let ghost old_formats = formats@;
                    formats.push((left, cmd.version.clone()));
                    assert(formats@.map_values(|p: (String, String)| pair_view(p))
                        == old_formats.map_values(|p: (String, String)| pair_view(p)).push(
                        (plugin_label(cmd.title@, f@), cmd.version@)));
                },
                None => {},
            }
            i = i + 1;
        }
        assert(metadata@.subrange(0, metadata@.len() as int) == metadata@);
        Some(formats)
    }
}

} // verus!
