use vstd::prelude::*;
use crate::text::views;

verus! {

/// The path that `std::path::Path::join` makes of `base` and `component` on
/// Unix: the component alone when it starts with `/`; otherwise the two put
/// together, with a `/` between them unless `base` is empty or already ends
/// in one.
pub open spec fn spec_path_join(base: Seq<char>, component: Seq<char>) -> Seq<char> {
    if component.len() > 0 && component[0] == '/' {
        component
    } else if base.len() == 0 || base.last() == '/' {
        base + component
    } else {
        base + seq!['/'] + component
    }
}

/// The components that `std::path::Path::components` finds in `path`, each
/// as text.
pub uninterp spec fn spec_path_components(path: Seq<char>) -> Seq<Seq<char>>;

/// What `std::path::Path::components` hands out on Unix: no component is
/// empty; the root `/` comes only first; every other component (`.`, `..`
/// or a name) holds no `/`.
pub open spec fn well_split(components: Seq<Seq<char>>) -> bool {
    forall|i: int|
        0 <= i < components.len() ==> #[trigger] components[i].len() > 0 && (if components[i]
            == seq!['/'] {
            i == 0
        } else {
            !components[i].contains('/')
        })
}

/// The parent that `std::path::Path::parent` finds for `path`, as text.
pub uninterp spec fn spec_path_parent(path: Seq<char>) -> Option<Seq<char>>;

/// Whether two paths are equal as `std::path::Path`s: `Path`'s `==`
/// compares the paths component by component.
pub open spec fn spec_same_path(a: Seq<char>, b: Seq<char>) -> bool {
    spec_path_components(a) == spec_path_components(b)
}

/// Two paths are the same exactly when they have as many components and
/// agree on each, position by position; paths that differ in any component
/// are not the same.
pub proof fn lemma_same_path_components(a: Seq<char>, b: Seq<char>)
    ensures
        spec_same_path(a, b) <==> (spec_path_components(a).len() == spec_path_components(b).len()
            && forall|i: int|
            0 <= i < spec_path_components(a).len() ==> #[trigger] spec_path_components(a)[i]
                == spec_path_components(b)[i]),
        forall|i: int|
            0 <= i < spec_path_components(a).len() && i < spec_path_components(b).len()
                && spec_path_components(a)[i] != spec_path_components(b)[i] ==> !#[trigger] spec_same_path(a, b),
{
    let ca = spec_path_components(a);
    let cb = spec_path_components(b);
    if ca.len() == cb.len() && forall|i: int| 0 <= i < ca.len() ==> #[trigger] ca[i] == cb[i] {
        assert(ca =~= cb);
    }
}

/// Joins `component` onto `base` as `std::path::Path::join` does on Unix.
pub fn join_path(base: &str, component: &str) -> (r: String)
    ensures
        r@ == spec_path_join(base@, component@),
{
    let clen = component.unicode_len();
    if clen > 0 && component.get_char(0) == '/' {
        return String::from_str(component);
    }
    let blen = base.unicode_len();
    let mut r = String::from_str(base);
    if blen > 0 && base.get_char(blen - 1) != '/' {
        r.append("/");
        proof {
            reveal_strlit("/");
            assert("/"@ =~= seq!['/']);
        }
    }
    r.append(component);
    r
}

/// Calls `std::path::Path::components`: the result, each component as text,
/// is the name above of the argument, and is split as `well_split` says
/// (the root directory comes first and only there; `.`, `..` and names hold
/// no separator; no component is empty).
#[verifier::external_body]
pub(crate) fn path_components(path: &str) -> (r: Vec<String>)
    ensures
        views(r@) == spec_path_components(path@),
        well_split(views(r@)),
{
    let mut r = Vec::new();
    for c in std::path::Path::new(path).components() {
        r.push(c.as_os_str().to_string_lossy().into_owned());
    }
    r
}

/// Calls `std::path::Path::parent`: the result is the name above of the
/// argument.
#[verifier::external_body]
pub(crate) fn parent_of(path: &str) -> (r: Option<String>)
    ensures
        r is Some == spec_path_parent(path@) is Some,
        r matches Some(p) ==> spec_path_parent(path@) == Some(p@),
{
    std::path::Path::new(path).parent().map(|p| p.to_string_lossy().into_owned())
}

/// Whether two paths are equal as `std::path::Path`s: whether they have the
/// same components. A path equals itself.
#[verifier::loop_isolation(false)]
pub fn same_path(a: &str, b: &str) -> (r: bool)
    ensures
        r == spec_same_path(a@, b@),
        r <==> (spec_path_components(a@).len() == spec_path_components(b@).len() && forall|i: int|
            0 <= i < spec_path_components(a@).len() ==> #[trigger] spec_path_components(a@)[i]
                == spec_path_components(b@)[i]),
        a@ == b@ ==> r,
{
    let ca = path_components(a);
    let cb = path_components(b);
    if ca.len() != cb.len() {
        assert(views(ca@).len() != views(cb@).len());
        return false;
    }
    let n = ca.len();
    for i in 0..n
        invariant
            n == ca@.len(),
            n == cb@.len(),
            forall|j: int| 0 <= j < i ==> ca@[j]@ == cb@[j]@,
    {
        if ca[i] != cb[i] {
            assert(views(ca@)[i as int] != views(cb@)[i as int]);
            return false;
        }
    }
    assert(views(ca@) =~= views(cb@));
    true
}

/// A character of the hyphenated form of an id: a lower-case hexadecimal
/// digit or a hyphen.
pub open spec fn is_id_char(c: char) -> bool {
    ('0' <= c && c <= '9') || ('a' <= c && c <= 'f') || c == '-'
}

/// A 36-character id in hyphenated form.
pub open spec fn is_id(id: Seq<char>) -> bool {
    id.len() == 36 && forall|i: int| 0 <= i < id.len() ==> is_id_char(#[trigger] id[i])
}

/// Calls `uuid::Uuid::new_v4` and formats the id with its `Display`, which
/// writes the 36-character hyphenated form in lower-case hexadecimal. The id
/// is random; which one comes out is not stated.
#[verifier::external_body]
fn fresh_id() -> (r: String)
    ensures
        is_id(r@),
{
    uuid::Uuid::new_v4().to_string()
}

/// The name of the backup that keeps what stood at `target` before an
/// install replaced it.
pub open spec fn spec_backup_name(target: Seq<char>, id: Seq<char>) -> Seq<char> {
    target + "_"@ + id + ".bak"@
}

/// The name of the staging path where new content is prepared before it is
/// swapped in at `target`.
pub open spec fn spec_limbo_name(target: Seq<char>, id: Seq<char>) -> Seq<char> {
    target + "_"@ + id + ".limbo"@
}

/// The backup name for `target` with the given id.
pub fn backup_name(target: &str, id: &str) -> (r: String)
    ensures
        r@ == spec_backup_name(target@, id@),
{
    let mut r = String::from_str(target);
    r.append("_");
    r.append(id);
    r.append(".bak");
    r
}

/// The staging name for `target` with the given id.
pub fn limbo_name(target: &str, id: &str) -> (r: String)
    ensures
        r@ == spec_limbo_name(target@, id@),
{
    let mut r = String::from_str(target);
    r.append("_");
    r.append(id);
    r.append(".limbo");
    r
}

/// A fresh backup name for `target`, made with a random id.
pub fn get_bak(target: &str) -> (r: String)
    ensures
        exists|id: Seq<char>| is_id(id) && r@ == spec_backup_name(target@, id),
{
    let id = fresh_id();
    backup_name(target, id.as_str())
}

/// A fresh staging name for `target`, made with a random id.
pub fn get_limbo(target: &str) -> (r: String)
    ensures
        exists|id: Seq<char>| is_id(id) && r@ == spec_limbo_name(target@, id),
{
    let id = fresh_id();
    limbo_name(target, id.as_str())
}

/// A backup name and a staging name never coincide, and neither is the path
/// they are made for: an install cannot overwrite its own staging file, its
/// backup, or the target with one of the others.
pub proof fn lemma_side_names_distinct(target: Seq<char>, id1: Seq<char>, id2: Seq<char>)
    ensures
        spec_backup_name(target, id1) != spec_limbo_name(target, id2),
        spec_backup_name(target, id1) != target,
        spec_limbo_name(target, id2) != target,
{
    reveal_strlit(".bak");
    reveal_strlit(".limbo");
    reveal_strlit("_");
    let b = spec_backup_name(target, id1);
    let l = spec_limbo_name(target, id2);
    assert(b.last() == 'k');
    assert(l.last() == 'o');
}

/// Staging names, and likewise backup names, made for one path with
/// different ids differ: two installs of a path never share a staging file
/// unless they drew the same id.
pub proof fn lemma_side_names_injective(target: Seq<char>, id1: Seq<char>, id2: Seq<char>)
    requires
        id1.len() == id2.len(),
        id1 != id2,
    ensures
        spec_limbo_name(target, id1) != spec_limbo_name(target, id2),
        spec_backup_name(target, id1) != spec_backup_name(target, id2),
{
    reveal_strlit("_");
    let n = target.len() + 1;
    if forall|i: int| 0 <= i < id1.len() ==> id1[i] == id2[i] {
        assert(id1 =~= id2);
    }
    let i = choose|i: int| 0 <= i < id1.len() && id1[i] != id2[i];
    assert(spec_limbo_name(target, id1)[n + i] == id1[i]);
    assert(spec_limbo_name(target, id2)[n + i] == id2[i]);
    assert(spec_backup_name(target, id1)[n + i] == id1[i]);
    assert(spec_backup_name(target, id2)[n + i] == id2[i]);
}

/// The text a staging or backup name adds to the path holds no `/`: the name
/// stays in the same directory as the path.
pub proof fn lemma_side_names_stay_beside(target: Seq<char>, id: Seq<char>)
    requires
        is_id(id),
    ensures
        forall|i: int|
            target.len() <= i < spec_limbo_name(target, id).len() ==> #[trigger] spec_limbo_name(
                target,
                id,
            )[i] != '/',
        forall|i: int|
            target.len() <= i < spec_backup_name(target, id).len() ==> #[trigger] spec_backup_name(
                target,
                id,
            )[i] != '/',
{
    reveal_strlit("_");
    reveal_strlit(".limbo");
    reveal_strlit(".bak");
    assert forall|i: int|
        target.len() <= i < spec_limbo_name(target, id).len() implies #[trigger] spec_limbo_name(
            target,
            id,
        )[i] != '/' by {
        if target.len() + 1 <= i < target.len() + 1 + 36 {
            assert(is_id_char(id[i - target.len() - 1]));
        }
    }
    assert forall|i: int|
        target.len() <= i < spec_backup_name(target, id).len() implies #[trigger] spec_backup_name(
            target,
            id,
        )[i] != '/' by {
        if target.len() + 1 <= i < target.len() + 1 + 36 {
            assert(is_id_char(id[i - target.len() - 1]));
        }
    }
}

} // verus!
