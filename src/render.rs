use vstd::prelude::*;
use crate::dep_map::DepMap;

verus! {

/// One line `name` + `specifier` + newline per pair, in the pairs' order.
pub open spec fn render_lines(s: Seq<(Seq<char>, Seq<char>)>) -> Seq<char>
    decreases s.len(),
{
    if s.len() == 0 {
        Seq::empty()
    } else {
        render_lines(s.drop_last()) + s.last().0 + s.last().1 + "\n"@
    }
}

/// The requirements text: one line per dependency, in the map's order.
pub fn convert_pip_deps_map_to_text(pip_deps: DepMap) -> (r: String)
    ensures
        r@ == render_lines(pip_deps.pairs()),
{
    let mut txt_data = String::new();
    let ghost s = pip_deps.pairs();
    let n = pip_deps.len();
    let mut i: usize = 0;
    while i < n
        invariant
            n == s.len(),
            s == pip_deps.pairs(),
            i <= n,
            txt_data@ == render_lines(s.take(i as int)),
        decreases n - i,
    {
        txt_data.append(pip_deps.key_at(i).as_str());
        txt_data.append(pip_deps.value_at(i).as_str());
        txt_data.append("\n");
        assert(s.take(i + 1).drop_last() =~= s.take(i as int));
        i = i + 1;
    }
    assert(s.take(n as int) =~= s);
    txt_data
}

} // verus!
