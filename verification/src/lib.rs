//! A small display-formatting helper: wrap a sequence of element texts into a
//! view that renders as `left_bound elem sep elem ... right_bound`
//! (by default `[elem, elem]`), with the separator and both bounds
//! independently customizable.

mod laws;
mod model;
mod render;
mod text;

pub use laws::lemma_config_commutes;
pub use laws::lemma_config_last_write_wins;
pub use laws::lemma_default_render;
pub use laws::lemma_render_empty;
pub use laws::lemma_render_single;
pub use laws::lemma_render_three;
pub use laws::lemma_rendered_frame;
pub use laws::occurs_at;
pub use laws::sep_position;
pub use model::PrintableModel;
pub use model::lemma_joined_len;
pub use model::lemma_joined_push;
pub use model::lemma_joined_split;
pub use model::model_with_left;
pub use model::model_with_right;
pub use model::model_with_sep;
pub use model::joined;
pub use model::rendered;
pub use model::texts_of;
pub use model::total_text_len;
pub use render::AsPrintable;
pub use render::Printable;
pub use text::i64_text;
pub use text::i64_to_string;
pub use text::u64_text;
pub use text::u64_to_string;
