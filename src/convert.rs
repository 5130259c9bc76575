use vstd::prelude::*;
use crate::dep_map::{keys_unique, pairs_to_map};
use crate::document::{dependency_sections, get_poetry_dependencies, is_poetry_manifest, poetry_section, validate_toml, Node};
use crate::extract::{merge_sections, merging_deps, ManifestError};
use crate::normalize::{normalize_all, processing_deps, runtime_key};
use crate::render::{convert_pip_deps_map_to_text, render_lines};

verus! {

/// The requirements text of a manifest: `Ok(None)` when it lacks the Poetry
/// dependency sections, an error when a dependency table has no `version`,
/// else one `name<op><version>` line per merged, normalized dependency other
/// than the interpreter.
pub fn requirements_text(doc: &Node) -> (r: Result<Option<String>, ManifestError>)
    ensures
        !is_poetry_manifest(*doc) ==> r is Ok && r->Ok_0 is None,
        is_poetry_manifest(*doc) ==> {
            let merged = merge_sections(dependency_sections(poetry_section(*doc)->0));
            &&& (r is Err <==> merged is None)
            &&& r is Ok ==> r->Ok_0 is Some
            &&& (r is Ok ==> exists|p: Seq<(Seq<char>, Seq<char>)>|
                keys_unique(p) && pairs_to_map(p) == normalize_all(merged->0).remove(runtime_key())
                    && r->Ok_0->0@ == render_lines(p))
        },
{
    if !validate_toml(doc) {
        return Ok(None);
    }
    let all_deps = get_poetry_dependencies(doc);
    assert(all_deps@.map_values(|n: &Node| *n) =~= dependency_sections(poetry_section(*doc)->0));
    match merging_deps(all_deps) {
        Ok(merged) => {
            let processed = processing_deps(merged);
            let text = convert_pip_deps_map_to_text(processed);
            Ok(Some(text))
        },
        Err(e) => Err(e),
    }
}

} // verus!
