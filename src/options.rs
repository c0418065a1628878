//! What a run is asked to do: one selected marker or every marker of the index.
use vstd::prelude::*;
use std::path::PathBuf;

verus! {

#[verifier::external_type_specification]
#[verifier::external_body]
pub struct ExPathBuf(PathBuf);

/// Relies on `PathBuf`'s `Clone`: the copy is the same path.
pub assume_specification[ <PathBuf as Clone>::clone ](p: &PathBuf) -> (r: PathBuf)
    ensures
        r == *p,
;

/// The command line of a run.
pub struct Cli {
    /// The marker whose section is wanted.
    pub emoji: String,
    /// Whether every marker of the index is wanted instead.
    pub split: bool,
    /// The source file.
    pub infile: PathBuf,
}

/// Which sections a run extracts.
pub enum OutputMode {
    /// The section of one marker.
    SelectedEmoji(String),
    /// The section of each marker of the index.
    EveryEmoji,
}

/// The options of a run, taken from its command line.
pub struct EmojiOpts {
    pub mode: OutputMode,
    pub infile: PathBuf,
}

impl EmojiOpts {
    /// Every marker when `split` is set, else the marker given by `emoji`; the
    /// source file as given.
    pub fn new(cli: &Cli) -> (r: Self)
        ensures
            cli.split ==> r.mode is EveryEmoji,
            !cli.split ==> r.mode is SelectedEmoji && r.mode->SelectedEmoji_0@ == cli.emoji@,
            r.infile == cli.infile,
    {
        EmojiOpts {
            mode: if cli.split {
                OutputMode::EveryEmoji
            } else {
                OutputMode::SelectedEmoji(cli.emoji.clone())
            },
            infile: cli.infile.clone(),
        }
    }
}

/// How an output file is named from the source file.
pub enum SplitFileMode {
    /// The source's extension is removed.
    RemoveExtension,
    /// The source's extension is replaced by the marker.
    EmojiExtension,
}

impl SplitFileMode {
    /// The extension of the output file for the section of `selected`.
    pub fn extension(&self, selected: &str) -> (r: String)
        ensures
            self is RemoveExtension ==> r@ == Seq::<char>::empty(),
            self is EmojiExtension ==> r@ == selected@,
    {
        match self {
            SplitFileMode::RemoveExtension => String::new(),
            SplitFileMode::EmojiExtension => selected.to_owned(),
        }
    }
}

} // verus!
