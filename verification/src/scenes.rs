use vstd::prelude::*;
use crate::editor::views;
use crate::text::str_eq;

verus! {

/// What the scene logic reads of a scene: its name, its length in steps,
/// how many times it plays (0: for ever), and the scene that follows it.
#[derive(Clone, Debug)]
pub struct SceneLink {
    pub id: String,
    pub steps: usize,
    pub repeats: usize,
    pub next: Option<String>,
}

/// The index of the first scene named `id` at or after `i`, or -1.
pub open spec fn scene_index_from(g: Seq<SceneLink>, id: Seq<char>, i: int) -> int
    decreases g.len() - i,
{
    if i < 0 || i >= g.len() {
        -1
    } else if g[i].id@ == id {
        i
    } else {
        scene_index_from(g, id, i + 1)
    }
}

/// The index of the scene named `id`, or -1 when there is none.
pub open spec fn scene_index(g: Seq<SceneLink>, id: Seq<char>) -> int {
    scene_index_from(g, id, 0)
}

/// The message for a scene name that names no scene.
pub open spec fn unknown_scene_message(id: Seq<char>) -> Seq<char> {
    "unknown scene ':"@ + id + "'"@
}

/// The message for a scene whose `:next` names no scene.
pub open spec fn dangling_next_message(id: Seq<char>, next: Seq<char>) -> Seq<char> {
    "scene ':"@ + id + "' :next references unknown scene ':"@ + next + "'"@
}

/// Following the `:next` links from `id` for at most `fuel` scenes: the
/// first problem met, if any. A scene that plays for ever or has no `:next`
/// ends the chain.
pub open spec fn chain_problem(g: Seq<SceneLink>, id: Seq<char>, fuel: nat) -> Option<Seq<char>>
    decreases fuel,
{
    if fuel == 0 {
        None
    } else {
        let i = scene_index(g, id);
        if i < 0 {
            Some(unknown_scene_message(id))
        } else if g[i].repeats == 0 {
            None
        } else {
            match g[i].next {
                None => None,
                Some(nx) => if scene_index(g, nx@) < 0 {
                    Some(dangling_next_message(g[i].id@, nx@))
                } else {
                    chain_problem(g, nx@, (fuel - 1) as nat)
                },
            }
        }
    }
}

/// The steps a scene takes each time it plays: at least one.
pub open spec fn scene_len(s: SceneLink) -> nat {
    if s.steps >= 1 {
        s.steps as nat
    } else {
        1
    }
}

/// The steps a scene takes over all its repeats.
pub open spec fn scene_total(s: SceneLink) -> nat {
    s.repeats as nat * scene_len(s)
}

/// The steps played following the chain from `id` for at most `fuel`
/// scenes, when the chain ends within them; none when it reaches an unknown
/// scene, a scene that plays for ever, or runs out of fuel (a cycle).
pub open spec fn chain_steps(g: Seq<SceneLink>, id: Seq<char>, fuel: nat) -> Option<nat>
    decreases fuel,
{
    if fuel == 0 {
        None
    } else {
        let i = scene_index(g, id);
        if i < 0 || g[i].repeats == 0 {
            None
        } else {
            match g[i].next {
                None => Some(scene_total(g[i])),
                Some(nx) => match chain_steps(g, nx@, (fuel - 1) as nat) {
                    Some(rest) => Some(scene_total(g[i]) + rest),
                    None => None,
                },
            }
        }
    }
}

/// How many of the first `k` flags are set.
pub open spec fn count_set(used: Seq<bool>, k: nat) -> nat
    decreases k,
{
    if k == 0 {
        0
    } else {
        count_set(used, (k - 1) as nat) + if used[k - 1] {
            1nat
        } else {
            0nat
        }
    }
}

/// The steps of the scenes among the first `k` whose flag is set.
pub open spec fn steps_of_set(g: Seq<SceneLink>, used: Seq<bool>, k: nat) -> nat
    decreases k,
{
    if k == 0 {
        0
    } else {
        steps_of_set(g, used, (k - 1) as nat) + if used[k - 1] {
            scene_total(g[k - 1])
        } else {
            0nat
        }
    }
}

/// The steps of the first `k` scenes, each over all its repeats.
pub open spec fn steps_upto(g: Seq<SceneLink>, k: nat) -> nat
    decreases k,
{
    if k == 0 {
        0
    } else {
        steps_upto(g, (k - 1) as nat) + scene_total(g[k - 1])
    }
}

proof fn lemma_scene_index_from(g: Seq<SceneLink>, id: Seq<char>, i: int)
    requires
        0 <= i <= g.len(),
    ensures
        scene_index_from(g, id, i) >= 0 ==> i <= scene_index_from(g, id, i) < g.len()
            && g[scene_index_from(g, id, i)].id@ == id,
        scene_index_from(g, id, i) < 0 ==> scene_index_from(g, id, i) == -1 && forall|j: int|
            i <= j < g.len() ==> g[j].id@ != id,
    decreases g.len() - i,
{
    if i < g.len() && g[i].id@ != id {
        lemma_scene_index_from(g, id, i + 1);
    }
}

/// The index found for a name holds a scene of that name.
pub proof fn lemma_scene_index(g: Seq<SceneLink>, id: Seq<char>)
    ensures
        scene_index(g, id) >= 0 ==> scene_index(g, id) < g.len() && g[scene_index(g, id)].id@
            == id,
        scene_index(g, id) < 0 ==> forall|j: int| 0 <= j < g.len() ==> g[j].id@ != id,
{
    lemma_scene_index_from(g, id, 0);
}

proof fn lemma_count_set(used: Seq<bool>, k: nat, j: int)
    requires
        k <= used.len(),
        0 <= j < used.len(),
        !used[j],
    ensures
        count_set(used, k) <= k,
        count_set(used.update(j, true), k) == count_set(used, k) + if j < k {
            1nat
        } else {
            0nat
        },
    decreases k,
{
    if k > 0 {
        lemma_count_set(used, (k - 1) as nat, j);
    }
}

proof fn lemma_steps_of_set(g: Seq<SceneLink>, used: Seq<bool>, k: nat, j: int)
    requires
        k <= used.len(),
        used.len() == g.len(),
        0 <= j < used.len(),
        !used[j],
    ensures
        steps_of_set(g, used, k) <= steps_upto(g, k),
        steps_of_set(g, used.update(j, true), k) == steps_of_set(g, used, k) + if j < k {
            scene_total(g[j])
        } else {
            0nat
        },
    decreases k,
{
    if k > 0 {
        lemma_steps_of_set(g, used, (k - 1) as nat, j);
    }
}

proof fn lemma_steps_of_set_bound(g: Seq<SceneLink>, used: Seq<bool>, k: nat)
    requires
        k <= used.len(),
        used.len() == g.len(),
    ensures
        steps_of_set(g, used, k) <= steps_upto(g, k),
        count_set(used, k) <= k,
    decreases k,
{
    if k > 0 {
        lemma_steps_of_set_bound(g, used, (k - 1) as nat);
    }
}

/// Walking on from a scene in a set closed under `:next`, whose scenes all
/// repeat a finite number of times and all have a `:next`, never meets a
/// problem and never ends.
proof fn lemma_closed_chain(g: Seq<SceneLink>, vs: Seq<Seq<char>>, id: Seq<char>, fuel: nat)
    requires
        vs.contains(id),
        forall|x: Seq<char>|
            #![trigger vs.contains(x)]
            vs.contains(x) ==> {
                let i = scene_index(g, x);
                &&& i >= 0
                &&& g[i].repeats != 0
                &&& g[i].next matches Some(y) && vs.contains(y@)
            },
    ensures
        chain_problem(g, id, fuel) is None,
        chain_steps(g, id, fuel) is None,
    decreases fuel,
{
    if fuel > 0 {
        let i = scene_index(g, id);
        let y = g[i].next->0;
        assert(vs.contains(y@));
        lemma_scene_index(g, y@);
        assert(scene_index(g, y@) >= 0);
        lemma_closed_chain(g, vs, y@, (fuel - 1) as nat);
    }
}


/// A scene that plays a finite number of times and names itself as its
/// `:next` loops for ever: its chain never ends and has no problem.
pub proof fn lemma_self_loop_never_ends(g: Seq<SceneLink>, id: Seq<char>, fuel: nat)
    requires
        scene_index(g, id) >= 0,
        g[scene_index(g, id)].repeats != 0,
        g[scene_index(g, id)].next matches Some(nx) && nx@ == id,
    ensures
        chain_steps(g, id, fuel) is None,
        chain_problem(g, id, fuel) is None,
{
    let vs = seq![id];
    assert(vs.contains(id)) by {
        assert(vs[0] == id);
    }
    assert forall|x: Seq<char>| #![trigger vs.contains(x)] vs.contains(x) implies {
        let i = scene_index(g, x);
        &&& i >= 0
        &&& g[i].repeats != 0
        &&& g[i].next matches Some(y) && vs.contains(y@)
    } by {
        assert(x == id);
    }
    lemma_closed_chain(g, vs, id, fuel);
}

/// The first scene named `id`, if any.
pub fn find_scene(scenes: &[SceneLink], id: &str) -> (r: Option<usize>)
    ensures
        match r {
            Some(i) => i as int == scene_index(scenes@, id@) && i < scenes@.len()
                && scenes@[i as int].id@ == id@,
            None => scene_index(scenes@, id@) < 0,
        },
{
    proof {
        lemma_scene_index(scenes@, id@);
    }
    let mut i: usize = 0;
    while i < scenes.len()
        invariant
            i <= scenes@.len(),
            scene_index(scenes@, id@) == scene_index_from(scenes@, id@, i as int),
        decreases scenes@.len() - i,
    {
        if str_eq(scenes[i].id.as_str(), id) {
            return Some(i);
        }
        i = i + 1;
    }
    None
}

/// Whether `name` is among `names`.
fn contains_name(names: &Vec<String>, name: &str) -> (r: bool)
    ensures
        r == views(names@).contains(name@),
{
    let mut i: usize = 0;
    while i < names.len()
        invariant
            i <= names@.len(),
            forall|j: int| 0 <= j < i ==> names@[j]@ != name@,
        decreases names@.len() - i,
    {
        if str_eq(names[i].as_str(), name) {
            assert(views(names@)[i as int] == name@);
            return true;
        }
        i = i + 1;
    }
    proof {
        if views(names@).contains(name@) {
            let k = choose|k: int| 0 <= k < views(names@).len() && views(names@)[k] == name@;
            assert(names@[k]@ == name@);
        }
    }
    false
}

/// Checks the chain of `:next` links from the scene `start` as far as it
/// goes (to a scene that plays for ever, a scene without `:next`, or back to
/// a scene already seen): `start` and every scene named on the way must
/// exist.
pub fn validate_scene_next_targets(scenes: &[SceneLink], start: &str) -> (r: Result<(), String>)
    ensures
        match chain_problem(scenes@, start@, scenes@.len() + 1) {
            None => r is Ok,
            Some(m) => r matches Err(e) && e@ == m,
        },
{
    let ghost g = scenes@;
    let ghost n = g.len();
    let ghost fuel_all: nat = n + 1;
    let mut current = String::from_str(start);
    let mut visited: Vec<String> = Vec::new();
    let ghost mut used: Seq<bool> = Seq::new(n, |j: int| false);
    proof {
        lemma_steps_of_set_bound(g, used, n);
        assert(count_set(used, n) == 0) by {
            assert forall|k: nat| k <= n implies count_set(used, k) == 0 by {
                lemma_count_zero(used, k);
            }
        }
    }
    loop
        invariant
            g == scenes@,
            n == g.len(),
            fuel_all == n + 1,
            used.len() == n,
            count_set(used, n) == visited@.len(),
            forall|j: int| 0 <= j < n && used[j] ==> views(visited@).contains(g[j].id@),
            forall|x: Seq<char>|
                #![trigger views(visited@).contains(x)]
                views(visited@).contains(x) ==> {
                    let i = scene_index(g, x);
                    &&& i >= 0
                    &&& used[i]
                    &&& g[i].repeats != 0
                    &&& g[i].next matches Some(y) && (views(visited@).contains(y@) || y@
                        == current@)
                },
            chain_problem(g, start@, fuel_all) == chain_problem(
                g,
                current@,
                (fuel_all - visited@.len()) as nat,
            ),
        decreases n - count_set(used, n),
    {
        proof {
            lemma_steps_of_set_bound(g, used, n);
        }
        if contains_name(&visited, current.as_str()) {
            proof {
                lemma_closed_chain(
                    g,
                    views(visited@),
                    current@,
                    (fuel_all - visited@.len()) as nat,
                );
            }
            return Ok(());
        }
        let i = match find_scene(scenes, current.as_str()) {
            Some(i) => i,
            None => {
                let mut m = String::from_str("unknown scene ':");
                m.append(current.as_str());
                m.append("'");
                return Err(m);
            },
        };
        proof {
            lemma_scene_index(g, current@);
        }
        if scenes[i].repeats == 0 {
            return Ok(());
        }
        let next = match &scenes[i].next {
            None => {
                return Ok(());
            },
            Some(nx) => nx,
        };
        if find_scene(scenes, next.as_str()).is_none() {
            let mut m = String::from_str("scene ':");
            m.append(scenes[i].id.as_str());
            m.append("' :next references unknown scene ':");
            m.append(next.as_str());
            m.append("'");
            return Err(m);
        }
        proof {
            if used[i as int] {
                assert(views(visited@).contains(g[i as int].id@));
                assert(false);
            }
            lemma_count_set(used, n, i as int);
        }
        let ghost old_visited = views(visited@);
        let ghost old_current = current@;
        let ghost old_used = used;
        visited.push(current);
        current = next.clone();
        proof {
            used = used.update(i as int, true);
            lemma_steps_of_set_bound(g, used, n);
            assert(views(visited@) =~= old_visited.push(old_current));
            assert(views(visited@)[views(visited@).len() - 1] == old_current);
            assert(views(visited@).contains(old_current));
            assert(current@ == next@);
            assert forall|x: Seq<char>| #[trigger]
                views(visited@).contains(x) implies {
                let k = scene_index(g, x);
                &&& k >= 0
                &&& used[k]
                &&& g[k].repeats != 0
                &&& g[k].next matches Some(y) && (views(visited@).contains(y@) || y@ == current@)
            } by {
                lemma_scene_index(g, x);
                if x == old_current {
                    assert(scene_index(g, x) == i);
                } else {
                    let w = choose|w: int| 0 <= w < views(visited@).len() && views(visited@)[w] == x;
                    assert(w < old_visited.len());
                    assert(old_visited[w] == x);
                    assert(old_visited.contains(x));
                    let k = scene_index(g, x);
                    assert(old_used[k]);
                    let y = g[k].next->0;
                    if old_visited.contains(y@) {
                        let u = choose|u: int| 0 <= u < old_visited.len() && old_visited[u] == y@;
                        assert(views(visited@)[u] == y@);
                    }
                }
            }
            assert forall|j: int| 0 <= j < n && used[j] implies views(
                visited@,
            ).contains(g[j].id@) by {
                if j != i {
                    assert(old_used[j]);
                    assert(old_visited.contains(g[j].id@));
                    let u = choose|u: int| 0 <= u < old_visited.len() && old_visited[u] == g[j].id@;
                    assert(views(visited@)[u] == g[j].id@);
                }
            }
        }
    }
}

proof fn lemma_count_zero(used: Seq<bool>, k: nat)
    requires
        k <= used.len(),
        forall|j: int| 0 <= j < used.len() ==> !used[j],
    ensures
        count_set(used, k) == 0,
    decreases k,
{
    if k > 0 {
        lemma_count_zero(used, (k - 1) as nat);
    }
}


/// Following the `:next` links from `id` as the render length does: each
/// scene met for the first time (not in `seen`) adds its steps over all its
/// repeats to `acc`; every running total so met fits in a `usize`.
pub open spec fn chain_totals_fit(
    g: Seq<SceneLink>,
    id: Seq<char>,
    seen: Seq<Seq<char>>,
    acc: nat,
    fuel: nat,
) -> bool
    decreases fuel,
{
    if fuel == 0 || seen.contains(id) {
        true
    } else {
        let i = scene_index(g, id);
        if i < 0 || g[i].repeats == 0 {
            true
        } else {
            let t = acc + scene_total(g[i]);
            t <= usize::MAX && match g[i].next {
                None => true,
                Some(nx) => chain_totals_fit(g, nx@, seen.push(id), t, (fuel - 1) as nat),
            }
        }
    }
}

/// The steps that playing on from scene `current` takes until the scene
/// chain ends; none when nothing is playing, or the chain reaches an
/// unknown scene, a scene that plays for ever, or comes back to a scene
/// already played (then it never ends).
#[verifier::rlimit(40)]
pub fn auto_render_steps(scenes: &[SceneLink], current: Option<&str>) -> (r: Option<usize>)
    requires
        current matches Some(c) ==> chain_totals_fit(
            scenes@,
            c@,
            Seq::empty(),
            0,
            (scenes@.len() + 1) as nat,
        ),
    ensures
        match current {
            None => r is None,
            Some(c) => match chain_steps(scenes@, c@, scenes@.len() + 1) {
                None => r is None,
                Some(t) => r == Some(t as usize),
            },
        },
{
    let start = match current {
        None => {
            return None;
        },
        Some(c) => c,
    };
    let ghost g = scenes@;
    let ghost n = g.len();
    let ghost fuel_all: nat = n + 1;
    let mut cur = String::from_str(start);
    let mut visited: Vec<String> = Vec::new();
    let mut steps: usize = 0;
    let ghost mut used: Seq<bool> = Seq::new(n, |j: int| false);
    proof {
        lemma_count_zero(used, n);
        lemma_steps_zero(g, used, n);
        assert(views(visited@) =~= Seq::<Seq<char>>::empty());
    }
    loop
        invariant
            g == scenes@,
            current == Some(start),
            n == g.len(),
            fuel_all == n + 1,
            used.len() == n,
            visited@.len() <= n,
            chain_totals_fit(g, cur@, views(visited@), steps as nat, (fuel_all - visited@.len()) as nat),
            count_set(used, n) == visited@.len(),
            steps_of_set(g, used, n) == steps,
            forall|j: int| 0 <= j < n && used[j] ==> views(visited@).contains(g[j].id@),
            forall|x: Seq<char>|
                #![trigger views(visited@).contains(x)]
                views(visited@).contains(x) ==> {
                    let i = scene_index(g, x);
                    &&& i >= 0
                    &&& used[i]
                    &&& g[i].repeats != 0
                    &&& g[i].next matches Some(y) && (views(visited@).contains(y@) || y@
                        == cur@)
                },
            chain_steps(g, start@, fuel_all) == match chain_steps(
                g,
                cur@,
                (fuel_all - visited@.len()) as nat,
            ) {
                Some(rest) => Some((steps + rest) as nat),
                None => None::<nat>,
            },
        decreases n - count_set(used, n),
    {
        proof {
            lemma_steps_of_set_bound(g, used, n);
        }
        if contains_name(&visited, cur.as_str()) {
            proof {
                lemma_closed_chain(
                    g,
                    views(visited@),
                    cur@,
                    (fuel_all - visited@.len()) as nat,
                );
            }
            return None;
        }
        let i = match find_scene(scenes, cur.as_str()) {
            Some(i) => i,
            None => {
                return None;
            },
        };
        proof {
            lemma_scene_index(g, cur@);
        }
        if scenes[i].repeats == 0 {
            return None;
        }
        proof {
            if used[i as int] {
                assert(views(visited@).contains(g[i as int].id@));
                assert(false);
            }
            lemma_count_set(used, n, i as int);
            lemma_steps_of_set(g, used, n, i as int);
            lemma_steps_of_set_bound(g, used.update(i as int, true), n);
        }
        let len = if scenes[i].steps >= 1 {
            scenes[i].steps
        } else {
            1
        };
        assert(scenes[i as int].repeats * len == scene_total(g[i as int]));
        let here = scenes[i].repeats * len;
        steps = steps + here;
        let ghost old_visited = views(visited@);
        let ghost old_current = cur@;
        let ghost old_used = used;
        match &scenes[i].next {
            None => {
                return Some(steps);
            },
            Some(nx) => {
                visited.push(cur);
                cur = nx.clone();
            },
        }
        proof {
            used = used.update(i as int, true);
            assert(views(visited@) =~= old_visited.push(old_current));
            assert(views(visited@)[views(visited@).len() - 1] == old_current);
            assert(views(visited@).contains(old_current));
            assert forall|x: Seq<char>| #[trigger]
                views(visited@).contains(x) implies {
                let k = scene_index(g, x);
                &&& k >= 0
                &&& used[k]
                &&& g[k].repeats != 0
                &&& g[k].next matches Some(y) && (views(visited@).contains(y@) || y@ == cur@)
            } by {
                lemma_scene_index(g, x);
                if x == old_current {
                    assert(scene_index(g, x) == i);
                } else {
                    let w = choose|w: int| 0 <= w < views(visited@).len() && views(visited@)[w] == x;
                    assert(old_visited[w] == x);
                    assert(old_visited.contains(x));
                    let k = scene_index(g, x);
                    assert(old_used[k]);
                    let y = g[k].next->0;
                    if old_visited.contains(y@) {
                        let u = choose|u: int| 0 <= u < old_visited.len() && old_visited[u] == y@;
                        assert(views(visited@)[u] == y@);
                    }
                }
            }
            assert forall|j: int| 0 <= j < n && used[j] implies views(
                visited@,
            ).contains(g[j].id@) by {
                if j != i {
                    assert(old_used[j]);
                    assert(old_visited.contains(g[j].id@));
                    let u = choose|u: int| 0 <= u < old_visited.len() && old_visited[u] == g[j].id@;
                    assert(views(visited@)[u] == g[j].id@);
                }
            }
        }
    }
}

proof fn lemma_steps_zero(g: Seq<SceneLink>, used: Seq<bool>, k: nat)
    requires
        k <= used.len(),
        forall|j: int| 0 <= j < used.len() ==> !used[j],
    ensures
        steps_of_set(g, used, k) == 0,
    decreases k,
{
    if k > 0 {
        lemma_steps_zero(g, used, (k - 1) as nat);
    }
}

/// Cues scene `id`: it must exist and its `:next` chain must be sound (see
/// `validate_scene_next_targets`); gives the index of the scene to load.
pub fn apply_scene(scenes: &[SceneLink], id: &str) -> (r: Result<usize, String>)
    ensures
        scene_index(scenes@, id@) < 0 ==> (r matches Err(e) && e@ == unknown_scene_message(id@)),
        scene_index(scenes@, id@) >= 0 ==> match chain_problem(scenes@, id@, scenes@.len() + 1) {
            None => r == Ok::<usize, String>(scene_index(scenes@, id@) as usize),
            Some(m) => r matches Err(e) && e@ == m,
        },
{
    let i = match find_scene(scenes, id) {
        Some(i) => i,
        None => {
            let mut m = String::from_str("unknown scene ':");
            m.append(id);
            m.append("'");
            return Err(m);
        },
    };
    match validate_scene_next_targets(scenes, id) {
        Ok(()) => Ok(i),
        Err(e) => Err(e),
    }
}

/// Where a playing scene is: its name and how many times it has played.
#[derive(Clone, Debug)]
pub struct SceneCursor {
    pub current: String,
    pub cycle: usize,
}

/// What the sequencer does with the scenes when a step is reached.
#[derive(Clone, Copy, Debug, PartialEq, Eq, Structural)]
pub enum SceneAdvance {
    /// Nothing changes.
    Hold,
    /// The playing scene no longer exists: forget it.
    Forget,
    /// The scene starts its next repeat, counted from zero.
    NextCycle(usize),
    /// The chain ended: playback stops.
    Finish,
    /// The scene at `index` takes over from its first repeat; `changed`
    /// says whether it is another scene than the one that played.
    Switch { index: usize, changed: bool },
}

/// The scene decision at step `step`: at a step that ends a pass of the
/// playing scene (a multiple of its length, not 0), the scene repeats while
/// it has repeats left (or for ever), and then hands over to its `:next`
/// scene; without one, or when that scene is unknown, playback ends.
pub open spec fn spec_advance_scene(g: Seq<SceneLink>, state: Option<SceneCursor>, step: nat) -> SceneAdvance {
    match state {
        None => SceneAdvance::Hold,
        Some(st) => {
            let i = scene_index(g, st.current@);
            if i < 0 {
                SceneAdvance::Forget
            } else if step == 0 || step % scene_len(g[i]) != 0 {
                SceneAdvance::Hold
            } else if g[i].repeats == 0 || st.cycle + 1 < g[i].repeats {
                SceneAdvance::NextCycle((st.cycle + 1) as usize)
            } else {
                match g[i].next {
                    None => SceneAdvance::Finish,
                    Some(nx) => {
                        let j = scene_index(g, nx@);
                        if j < 0 {
                            SceneAdvance::Finish
                        } else {
                            SceneAdvance::Switch { index: j as usize, changed: nx@ != st.current@ }
                        }
                    },
                }
            }
        },
    }
}

/// Decides what happens to the scenes at step `step`.
pub fn advance_scene(scenes: &[SceneLink], state: &Option<SceneCursor>, step: usize) -> (r:
    SceneAdvance)
    requires
        state matches Some(st) ==> st.cycle < usize::MAX,
    ensures
        r == spec_advance_scene(scenes@, *state, step as nat),
{
    let st = match state {
        None => {
            return SceneAdvance::Hold;
        },
        Some(st) => st,
    };
    let i = match find_scene(scenes, st.current.as_str()) {
        None => {
            return SceneAdvance::Forget;
        },
        Some(i) => i,
    };
    let len = if scenes[i].steps >= 1 {
        scenes[i].steps
    } else {
        1
    };
    if step == 0 || step % len != 0 {
        return SceneAdvance::Hold;
    }
    let next_cycle = st.cycle + 1;
    if scenes[i].repeats == 0 || next_cycle < scenes[i].repeats {
        return SceneAdvance::NextCycle(next_cycle);
    }
    match &scenes[i].next {
        None => SceneAdvance::Finish,
        Some(nx) => match find_scene(scenes, nx.as_str()) {
            None => SceneAdvance::Finish,
            Some(j) => SceneAdvance::Switch {
                index: j,
                changed: !str_eq(nx.as_str(), st.current.as_str()),
            },
        },
    }
}

/// The hint given when a program would render silence: nothing plays while
/// scenes, tracks or post effects are defined.
pub fn playback_hint(running: bool, scenes: usize, tracks: usize, post_effects: usize) -> (r:
    Option<&'static str>)
    ensures
        running ==> r is None,
        !running && scenes > 0 ==> (r matches Some(h) && h@
            == "no scene is playing; add (play-scene :scene-name) or use the editor preview/render path"@),
        !running && scenes == 0 && tracks > 0 ==> (r matches Some(h) && h@
            == "tracks are defined but playback is stopped; add (start!) or wrap tracks in a scene and call (play-scene :scene-name)"@),
        !running && scenes == 0 && tracks == 0 && post_effects > 0 ==> (r matches Some(h) && h@
            == "post-fx is defined but there is no audio source; add a track or scene to render"@),
        !running && scenes == 0 && tracks == 0 && post_effects == 0 ==> r is None,
{
    if running {
        None
    } else if scenes > 0 {
        Some(
            "no scene is playing; add (play-scene :scene-name) or use the editor preview/render path",
        )
    } else if tracks > 0 {
        Some(
            "tracks are defined but playback is stopped; add (start!) or wrap tracks in a scene and call (play-scene :scene-name)",
        )
    } else if post_effects > 0 {
        Some("post-fx is defined but there is no audio source; add a track or scene to render")
    } else {
        None
    }
}


/// The scene and cycle shown in a status line: `-` and `-` unless a scene
/// plays; else the scene's name after a colon, and its pass counted from
/// one, over `loop` when it plays for ever or over its repeat count.
pub open spec fn spec_status_labels(
    g: Seq<SceneLink>,
    running: bool,
    state: Option<SceneCursor>,
) -> (Seq<char>, Seq<char>) {
    match state {
        Some(st) => if running {
            let i = scene_index(g, st.current@);
            let pass = crate::arith::decimal((st.cycle + 1) as nat);
            (
                ":"@ + st.current@,
                if i < 0 {
                    pass
                } else if g[i].repeats == 0 {
                    pass + "/loop"@
                } else {
                    pass + "/"@ + crate::arith::decimal(g[i].repeats as nat)
                },
            )
        } else {
            ("-"@, "-"@)
        },
        None => ("-"@, "-"@),
    }
}

/// The scene and cycle of a status line (see `spec_status_labels`).
pub fn status_labels(scenes: &[SceneLink], running: bool, state: &Option<SceneCursor>) -> (r: (
    String,
    String,
))
    requires
        state matches Some(st) ==> st.cycle < usize::MAX,
    ensures
        (r.0@, r.1@) == spec_status_labels(scenes@, running, *state),
{
    match state {
        Some(st) => {
            if !running {
                return (String::from_str("-"), String::from_str("-"));
            }
            let mut scene = String::from_str(":");
            scene.append(st.current.as_str());
            let mut cycle = String::new();
            crate::arith::push_decimal(&mut cycle, st.cycle + 1);
            match find_scene(scenes, st.current.as_str()) {
                None => {},
                Some(i) => {
                    if scenes[i].repeats == 0 {
                        cycle.append("/loop");
                    } else {
                        cycle.append("/");
                        crate::arith::push_decimal(&mut cycle, scenes[i].repeats);
                    }
                },
            }
            (scene, cycle)
        },
        None => (String::from_str("-"), String::from_str("-")),
    }
}

/// A status line after its `bpm=` field: whether playback runs, how many
/// tracks and scenes are defined, and the scene and cycle labels.
pub open spec fn spec_status_tail(
    running: bool,
    tracks: nat,
    scenes: nat,
    labels: (Seq<char>, Seq<char>),
) -> Seq<char> {
    " running="@ + (if running { "true"@ } else { "false"@ }) + " tracks="@ + crate::arith::decimal(
        tracks,
    ) + " scenes="@ + crate::arith::decimal(scenes) + " scene="@ + labels.0 + " cycle="@
        + labels.1
}

/// A status line after its `bpm=` field (see `spec_status_tail`).
pub fn status_tail(running: bool, tracks: usize, scenes: usize, scene: &str, cycle: &str) -> (r:
    String)
    ensures
        r@ == spec_status_tail(running, tracks as nat, scenes as nat, (scene@, cycle@)),
{
    let mut out = String::from_str(" running=");
    out.append(
        if running {
            "true"
        } else {
            "false"
        },
    );
    out.append(" tracks=");
    crate::arith::push_decimal(&mut out, tracks);
    out.append(" scenes=");
    crate::arith::push_decimal(&mut out, scenes);
    out.append(" scene=");
    out.append(scene);
    out.append(" cycle=");
    out.append(cycle);
    out
}

} // verus!
