use vstd::prelude::*;

use crate::locator::Locator;
use crate::manifest::Target;

verus! {

/// The paths that one target is copied between.
#[derive(Debug, Clone, PartialEq, Eq)]
pub struct Destination {
    /// `local_root/component/hash`
    pub local_dir: String,
    /// `local_dir/component`
    pub local_file: String,
    /// `remote_root/component/hash/component`
    pub remote_file: String,
}

/// `a/b`
pub open spec fn join(a: Seq<char>, b: Seq<char>) -> Seq<char> {
    a + seq!['/'] + b
}

/// `component/hash/component`: where a target lies under either root.
pub open spec fn store_path(component: Seq<char>, hash: Seq<char>) -> Seq<char> {
    join(join(component, hash), component)
}

/// The local directory, local file and remote file of the target
/// `component`, `hash` under `locator`.
pub open spec fn destination_of(locator: Locator, component: Seq<char>, hash: Seq<char>) -> (
    Seq<char>,
    Seq<char>,
    Seq<char>,
) {
    let dir = join(join(locator.local_root@, component), hash);
    (dir, join(dir, component), join(locator.remote_root@, store_path(component, hash)))
}

/// Whether `d` holds the paths of the target `component`, `hash` under `locator`.
pub open spec fn resolves_to(d: Destination, locator: Locator, component: Seq<char>, hash: Seq<char>) -> bool {
    let (dir, file, remote) = destination_of(locator, component, hash);
    &&& d.local_dir@ == dir
    &&& d.local_file@ == file
    &&& d.remote_file@ == remote
}

fn join_path(a: &String, b: &String) -> (r: String)
    ensures
        r@ == join(a@, b@),
{
    let sep = "/";
    proof {
        reveal_strlit("/");
    }
    let r = a.clone().concat(sep).concat(b.as_str());
    assert(r@ =~= join(a@, b@));
    r
}

/// `component/hash/component`, the path of `target` relative to a root.
pub fn relative_path(target: &Target) -> (r: String)
    ensures
        r@ == store_path(target.component@, target.hash@),
{
    join_path(&join_path(&target.component, &target.hash), &target.component)
}

/// Computes where `target` is fetched from and stored to under `locator`.
pub fn resolve(locator: &Locator, target: &Target) -> (d: Destination)
    ensures
        resolves_to(d, *locator, target.component@, target.hash@),
{
    let local_dir = join_path(&join_path(&locator.local_root, &target.component), &target.hash);
    let local_file = join_path(&local_dir, &target.component);
    let remote_file = join_path(&locator.remote_root, &relative_path(target));
    Destination { local_dir, local_file, remote_file }
}

/// Resolution is a function of its inputs alone: equal locators and targets
/// give equal destinations, and the local and remote files share the same
/// `component/hash/component` path under their roots.
pub proof fn lemma_resolve_deterministic(
    l1: Locator,
    t1: Target,
    d1: Destination,
    l2: Locator,
    t2: Target,
    d2: Destination,
)
    requires
        resolves_to(d1, l1, t1.component@, t1.hash@),
        resolves_to(d2, l2, t2.component@, t2.hash@),
        l1.local_root@ == l2.local_root@,
        l1.remote_root@ == l2.remote_root@,
        t1.component@ == t2.component@,
        t1.hash@ == t2.hash@,
    ensures
        d1.local_dir@ == d2.local_dir@,
        d1.local_file@ == d2.local_file@,
        d1.remote_file@ == d2.remote_file@,
        d1.local_file@ == join(l1.local_root@, store_path(t1.component@, t1.hash@)),
        d1.remote_file@ == join(l1.remote_root@, store_path(t1.component@, t1.hash@)),
{
    assert(d1.local_file@ =~= join(l1.local_root@, store_path(t1.component@, t1.hash@)));
}

} // verus!
