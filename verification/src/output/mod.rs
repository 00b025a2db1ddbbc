//! Non-interactive output formats.
use vstd::prelude::*;

pub mod info;
pub mod json;
pub mod tsv;

use crate::error::PrexpError;
use crate::models::ProcessSnapshot;

verus! {

/// Supported output formats for non-interactive mode.
#[derive(Debug, Clone, Copy, PartialEq, Eq, Structural)]
pub enum OutputFormat {
    Json,
    Tsv,
}

/// Formats the snapshots in `format` and appends the text to `writer`.
/// Both always succeed: TSV appends the tab-separated text, JSON the
/// pretty text of the snapshots.
pub fn format_snapshots(
    snapshots: &[ProcessSnapshot],
    format: OutputFormat,
    writer: &mut Vec<u8>,
) -> (r: Result<(), PrexpError>)
    ensures
        format == OutputFormat::Tsv ==> r is Ok && final(writer)@ == old(writer)@
            + vstd::utf8::encode_utf8(tsv::tsv_text(snapshots@)),
        format == OutputFormat::Json ==> r is Ok && final(writer)@ == old(writer)@
            + crate::json::pretty_text(json::snapshots_tree(snapshots@)),
{
    match format {
        OutputFormat::Json => json::format(snapshots, writer),
        OutputFormat::Tsv => tsv::format(snapshots, writer),
    }
}

} // verus!
