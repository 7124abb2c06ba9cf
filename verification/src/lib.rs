//! Colourise checksum output.
//!
//! Recognises lines produced by common hashing utilities — the BSD "tag"
//! form `ALGO (path) = digest` and the GNU/Perl form `digest  path` — and
//! re-renders the digest substring with an alternate visual encoding
//! (256-colour terminal escapes, Ecoji emoji, or per-digit highlighting),
//! leaving all other content unchanged.
//!
//! Lines are handled as byte sequences with the line terminator already
//! stripped; each line is classified and formatted independently of every
//! other line.

mod ansi_coloured_line;
mod base_line;
mod ecoji_line;
mod hex_pairs;
mod onepassword_line;
mod paint;

pub use base_line::FormattableLine;
pub use base_line::Line;
pub use base_line::assemble;
pub use base_line::assembled;
pub use base_line::double_space_at;
pub use base_line::find_bsd_tag_line;
pub use base_line::find_sum_prefixed_line;
pub use base_line::has_double_space;
pub use base_line::has_sep;
pub use base_line::is_classified;
pub use base_line::is_first_double_space;
pub use base_line::is_last_sep_end;
pub use base_line::lemma_bsd_precedence;
pub use base_line::lemma_classified_wf;
pub use base_line::lemma_classifier_deterministic;
pub use base_line::lemma_passthrough;
pub use base_line::sep_at;

pub use hex_pairs::all_hex;
pub use hex_pairs::decodes_as_hex;
pub use hex_pairs::hex_bytes;
pub use hex_pairs::hex_digit_value;
pub use hex_pairs::is_hex_digit;
pub use hex_pairs::lemma_hex_bytes_append;
pub use hex_pairs::pair_value;
pub use hex_pairs::parse_hex_digit;
pub use hex_pairs::parse_hex_pairs;

pub use paint::colour_prefix;
pub use paint::colour_reset;
pub use paint::dec_digits;
pub use paint::painted;

pub use ansi_coloured_line::ANSIColouredLine;
pub use ansi_coloured_line::ansi_chunks;
pub use ansi_coloured_line::ansi_format;
pub use ansi_coloured_line::lemma_ansi_chunks_append;
pub use ansi_coloured_line::lemma_ansi_fallback;

pub use ecoji_line::EcojiLine;
pub use ecoji_line::ecoji_format;
pub use ecoji_line::ecoji_of;
pub use ecoji_line::ecoji_round_trip;
pub use ecoji_line::lemma_ecoji_fallback;

pub use onepassword_line::OnePasswordLine;
pub use onepassword_line::digit_highlight;
pub use onepassword_line::highlight_colour;
pub use onepassword_line::highlight_unit;
pub use onepassword_line::is_decimal_digit;
pub use onepassword_line::lemma_digit_highlight_append;
pub use onepassword_line::lemma_digit_highlight_covers;
