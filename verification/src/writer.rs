//! Output framing: the per-format header and footer that surround the
//! concatenated chunk buffers.
//!
//! Framing is applied once, globally: CSV emits a header record before any
//! chunk output; JSON emits an opening bracket before the first chunk and
//! a closing bracket after the last; plain output has no framing at all.

use vstd::prelude::*;

verus! {

/// The text encoding chosen for a run.
#[derive(PartialEq, Eq, Structural, Clone, Copy, Debug)]
pub enum OutputFormat {
    /// One payload per line, nothing else.
    Plain,
    /// A JSON array of payload strings.
    Json,
    /// An `id,password` header, then one `id,payload` record per line.
    Csv,
}

/// The bytes written once before any record.
pub open spec fn header_spec(format: OutputFormat) -> Seq<u8> {
    match format {
        OutputFormat::Plain => Seq::empty(),
        OutputFormat::Json => seq!['[' as u8, '\n' as u8],
        OutputFormat::Csv => seq![
            'i' as u8, 'd' as u8, ',' as u8, 'p' as u8, 'a' as u8, 's' as u8, 's' as u8,
            'w' as u8, 'o' as u8, 'r' as u8, 'd' as u8, '\n' as u8,
        ],
    }
}

/// The bytes written once after the last record.
pub open spec fn footer_spec(format: OutputFormat) -> Seq<u8> {
    match format {
        OutputFormat::Plain => Seq::empty(),
        OutputFormat::Json => seq!['\n' as u8, ']' as u8],
        OutputFormat::Csv => Seq::empty(),
    }
}

/// Appends the global header for `format` to `buf`.
pub fn append_header(buf: &mut Vec<u8>, format: OutputFormat)
    ensures
        final(buf)@ == old(buf)@ + header_spec(format),
{
    match format {
        OutputFormat::Plain => {
            proof {
                assert(old(buf)@ + header_spec(format) =~= old(buf)@);
            }
        },
        OutputFormat::Json => {
            buf.push('[' as u8);
            buf.push('\n' as u8);
            proof {
                assert(buf@ =~= old(buf)@ + header_spec(format));
            }
        },
        OutputFormat::Csv => {
            buf.push('i' as u8);
            buf.push('d' as u8);
            buf.push(',' as u8);
            buf.push('p' as u8);
            buf.push('a' as u8);
            buf.push('s' as u8);
            buf.push('s' as u8);
            buf.push('w' as u8);
            buf.push('o' as u8);
            buf.push('r' as u8);
            buf.push('d' as u8);
            buf.push('\n' as u8);
            proof {
                assert(buf@ =~= old(buf)@ + header_spec(format));
            }
        },
    }
}

/// Appends the global footer for `format` to `buf`.
pub fn append_footer(buf: &mut Vec<u8>, format: OutputFormat)
    ensures
        final(buf)@ == old(buf)@ + footer_spec(format),
{
    match format {
        OutputFormat::Json => {
            buf.push('\n' as u8);
            buf.push(']' as u8);
            proof {
                assert(buf@ =~= old(buf)@ + footer_spec(format));
            }
        },
        _ => {
            proof {
                assert(old(buf)@ + footer_spec(format) =~= old(buf)@);
            }
        },
    }
}

} // verus!
