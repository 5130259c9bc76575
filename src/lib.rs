//! Turns the dependency tables of a Poetry manifest into pip requirement lines.
//!
//! The manifest is handed over as a [`Node`] tree. The library checks its shape,
//! extracts and merges the dependency tables, rewrites each version constraint
//! into pip's comparison syntax and renders one `name<op><version>` line per
//! dependency.

mod convert;
mod dep_map;
mod document;
mod extract;
mod normalize;
mod render;

pub use convert::requirements_text;
pub use dep_map::{keys_unique, pairs_to_map, DepMap};
pub use document::{
    child, dependency_sections, entry_value, get_poetry_dependencies, is_poetry_manifest,
    is_table, node_get, poetry_section, table_get, validate_toml, Node,
};
pub use extract::{
    accumulate_dependencies, extract_entries, extracted, get_version, lacks_version,
    lemma_later_section_wins, merge_sections, merging_deps, resolve_version, ManifestError,
};
pub use normalize::{
    is_escape_char, lemma_bare_pin, lemma_caret_rewrite, lemma_escapes_stripped,
    lemma_normalized_shape, normalize_all, normalized, process_poetry_version, processing_deps,
    runtime_key, strip_escapes,
};
pub use render::{convert_pip_deps_map_to_text, render_lines};
