//! The scene: the bodies and the step that advances them.
use vstd::prelude::*;
use crate::collision::{
    in_reach, lemma_colliding_spheres_boxes_meet, lemma_plane_box_meets_sphere_box,
    lemma_sphere_over_level_plane, CollisionManifold, ManifoldView,
};
use crate::math::quaternion::Quaternion;
use crate::math::matrix::Matrix3;
use crate::math::scalar::{
    lemma_add_zero, lemma_div_mul_back, lemma_mul_one, lemma_mul_one_plus, lemma_mul_zero, Scalar,
    SCALE,
};
use crate::math::vector::{
    lemma_along_y, lemma_normalize_zero, lemma_vector_add_zero, lemma_vector_products_zero,
    lemma_vector_scale_zero, Vector3,
};
use crate::scene::game_object::{
    lemma_immovable_tensor, lemma_integrate_free_body, lemma_integrate_keeps_material,
    lemma_integrate_without_spin, GameObject,
};
use crate::scene::resolver::{
    angular_term, body_impulse, friction_along, impulse_along, impulse_denominator,
    impulses_between, lemma_body_impulse_immovable, relative_velocity, restitution, tangent,
};
use crate::shapes::plane::{Plane, HALF_MAX_RAW};
use crate::shapes::bounding_volume::{BoundingVolume, AABB};
use crate::shapes::shape::Shape;

pub mod game_object;
pub mod resolver;

verus! {

/// The box around body `i`, where it stands now.
#[verifier::opaque]
pub open spec fn body_box(objects: Seq<GameObject>, i: int) -> AABB {
    objects[i].shape.compute_aabb(&objects[i].position)
}

/// The boxes around bodies `i` and `j` share a point.
pub open spec fn boxes_meet(objects: Seq<GameObject>, i: int, j: int) -> bool {
    body_box(objects, i).intersects_spec(&body_box(objects, j))
}

/// The pairs `(i, b)` with `i < b < j` whose boxes meet, by rising `b`.
pub open spec fn row_pairs(objects: Seq<GameObject>, i: int, j: int) -> Seq<(usize, usize)>
    decreases j - i,
{
    if j <= i + 1 {
        Seq::empty()
    } else {
        let before = row_pairs(objects, i, j - 1);
        if boxes_meet(objects, i, j - 1) {
            before.push((i as usize, (j - 1) as usize))
        } else {
            before
        }
    }
}

/// The pairs `(a, b)` with `a < i` and `a < b` whose boxes meet, by rising
/// `a`, and by rising `b` among those of one `a`.
pub open spec fn pairs_below(objects: Seq<GameObject>, i: int) -> Seq<(usize, usize)>
    decreases i,
{
    if i <= 0 {
        Seq::empty()
    } else {
        pairs_below(objects, i - 1) + row_pairs(objects, i - 1, objects.len() as int)
    }
}

/// Every pair of bodies whose boxes meet, the smaller index first, in
/// the order of the dictionary.
pub open spec fn candidate_pairs(objects: Seq<GameObject>) -> Seq<(usize, usize)> {
    pairs_below(objects, objects.len() as int)
}

/// `p` comes before `q` in the order of the dictionary.
pub open spec fn pair_before(p: (usize, usize), q: (usize, usize)) -> bool {
    p.0 < q.0 || (p.0 == q.0 && p.1 < q.1)
}

/// Each pair comes before the next, so none occurs twice.
pub open spec fn strictly_rising(pairs: Seq<(usize, usize)>) -> bool {
    forall|a: int, b: int|
        0 <= a < b < pairs.len() ==> pair_before(#[trigger] pairs[a], #[trigger] pairs[b])
}

/// Each pair names two bodies of a scene of `n`, the smaller index first.
pub open spec fn valid_pairs(pairs: Seq<(usize, usize)>, n: nat) -> bool {
    forall|k: int| 0 <= k < pairs.len() ==> (#[trigger] pairs[k]).0 < pairs[k].1 < n
}

/// Each pair names two bodies of a scene of `n`.
pub open spec fn pairs_in_range(pairs: Seq<(usize, usize)>, n: nat) -> bool {
    forall|k: int| 0 <= k < pairs.len() ==> (#[trigger] pairs[k]).0 < n && pairs[k].1 < n
}

/// The pair `(i, j)` is among `pairs`.
pub open spec fn lists_pair(pairs: Seq<(usize, usize)>, i: int, j: int) -> bool {
    exists|k: int| 0 <= k < pairs.len() && #[trigger] pairs[k] == (i as usize, j as usize)
}

/// Every pair of the list names two bodies whose boxes meet.
pub open spec fn all_meet(objects: Seq<GameObject>, pairs: Seq<(usize, usize)>) -> bool {
    forall|k: int|
        0 <= k < pairs.len() ==> boxes_meet(
            objects,
            (#[trigger] pairs[k]).0 as int,
            pairs[k].1 as int,
        )
}

/// Every two bodies whose boxes meet are in the list, the smaller index
/// first.
pub open spec fn none_missed(objects: Seq<GameObject>, pairs: Seq<(usize, usize)>) -> bool {
    forall|a: int, b: int|
        0 <= a < b < objects.len() && #[trigger] boxes_meet(objects, a, b) ==> lists_pair(
            pairs,
            a,
            b,
        )
}

/// What one row of the broad phase holds: the partners `b` of body `i`
/// with `i < b < j` whose boxes meet that of `i`, all of them, by rising
/// `b`.
pub proof fn lemma_row_pairs(objects: Seq<GameObject>, i: int, j: int)
    requires
        0 <= i,
        j <= objects.len() <= usize::MAX,
    ensures
        strictly_rising(row_pairs(objects, i, j)),
        forall|k: int|
            0 <= k < row_pairs(objects, i, j).len() ==> {
                let p = #[trigger] row_pairs(objects, i, j)[k];
                p.0 == i && i < p.1 < j && boxes_meet(objects, i, p.1 as int)
            },
        forall|b: int|
            i < b < j && #[trigger] boxes_meet(objects, i, b) ==> lists_pair(
                row_pairs(objects, i, j),
                i,
                b,
            ),
    decreases j - i,
{
    if j > i + 1 {
        lemma_row_pairs(objects, i, j - 1);
        let before = row_pairs(objects, i, j - 1);
        let row = row_pairs(objects, i, j);
        assert forall|b: int| i < b < j && #[trigger] boxes_meet(objects, i, b) implies lists_pair(
            row,
            i,
            b,
        ) by {
            if b == j - 1 {
                assert(row[before.len() as int] == (i as usize, b as usize));
            } else {
                assert(lists_pair(before, i, b));
                let k = choose|k: int|
                    0 <= k < before.len() && #[trigger] before[k] == (i as usize, b as usize);
                assert(row[k] == (i as usize, b as usize));
            }
        }
    }
}

/// What the broad phase holds after the rows of the bodies below `i`: the
/// pairs `(a, b)` with `a < i` and `a < b` whose boxes meet, all of them,
/// each once, in the order of the dictionary.
pub proof fn lemma_pairs_below(objects: Seq<GameObject>, i: int)
    requires
        0 <= i <= objects.len() <= usize::MAX,
    ensures
        strictly_rising(pairs_below(objects, i)),
        valid_pairs(pairs_below(objects, i), objects.len()),
        all_meet(objects, pairs_below(objects, i)),
        forall|k: int|
            0 <= k < pairs_below(objects, i).len() ==> (#[trigger] pairs_below(objects, i)[k]).0
                < i,
        forall|a: int, b: int|
            0 <= a < i && a < b < objects.len() && #[trigger] boxes_meet(objects, a, b)
                ==> lists_pair(pairs_below(objects, i), a, b),
    decreases i,
{
    if i > 0 {
        lemma_pairs_below(objects, i - 1);
        lemma_row_pairs(objects, i - 1, objects.len() as int);
        let head = pairs_below(objects, i - 1);
        let row = row_pairs(objects, i - 1, objects.len() as int);
        let all = pairs_below(objects, i);
        assert(all =~= head + row);
        assert forall|k: int| 0 <= k < all.len() implies {
            let p = #[trigger] all[k];
            p.0 < i && p.0 < p.1 < objects.len() && boxes_meet(objects, p.0 as int, p.1 as int)
        } by {
            if k < head.len() {
                assert(all[k] == head[k]);
            } else {
                assert(all[k] == row[k - head.len()]);
            }
        }
        assert forall|x: int, y: int| 0 <= x < y < all.len() implies pair_before(
            #[trigger] all[x],
            #[trigger] all[y],
        ) by {
            if y < head.len() {
                assert(all[x] == head[x] && all[y] == head[y]);
            } else if x < head.len() {
                assert(all[x] == head[x] && all[y] == row[y - head.len()]);
            } else {
                assert(all[x] == row[x - head.len()] && all[y] == row[y - head.len()]);
            }
        }
        assert forall|a: int, b: int|
            0 <= a < i && a < b < objects.len() && #[trigger] boxes_meet(
                objects,
                a,
                b,
            ) implies lists_pair(all, a, b) by {
            if a < i - 1 {
                assert(lists_pair(head, a, b));
                let k = choose|k: int|
                    0 <= k < head.len() && #[trigger] head[k] == (a as usize, b as usize);
                assert(all[k] == (a as usize, b as usize));
            } else {
                assert(lists_pair(row, a, b));
                let k = choose|k: int|
                    0 <= k < row.len() && #[trigger] row[k] == (a as usize, b as usize);
                assert(all[head.len() + k] == (a as usize, b as usize));
            }
        }
    }
}

/// The candidate pairs are the pairs of bodies whose boxes meet: every
/// such pair, nothing else, each once with its smaller index first, in the
/// order of the dictionary.
pub proof fn lemma_candidate_pairs(objects: Seq<GameObject>)
    requires
        objects.len() <= usize::MAX,
    ensures
        strictly_rising(candidate_pairs(objects)),
        valid_pairs(candidate_pairs(objects), objects.len()),
        all_meet(objects, candidate_pairs(objects)),
        none_missed(objects, candidate_pairs(objects)),
{
    lemma_pairs_below(objects, objects.len() as int);
}

/// The broad phase: the pairs of bodies that may touch.
///
/// A pair is listed exactly when the boxes around its two bodies share a
/// point; boxes that only touch count. Each pair has its smaller index
/// first and is listed once, by rising first index and then by rising
/// second index.
pub fn broad_phase(objects: &Vec<GameObject>) -> (pairs: Vec<(usize, usize)>)
    ensures
        pairs@ == candidate_pairs(objects@),
        strictly_rising(pairs@),
        valid_pairs(pairs@, objects@.len()),
        all_meet(objects@, pairs@),
        none_missed(objects@, pairs@),
{
    let n = objects.len();
    let mut pairs: Vec<(usize, usize)> = Vec::new();
    let mut i: usize = 0;
    while i < n
        invariant
            n == objects@.len(),
            i <= n,
            pairs@ == pairs_below(objects@, i as int),
        decreases n - i,
    {
        let ghost before = pairs@;
        let current = objects[i].shape().compute_aabb(&objects[i].position);
        assert(current == body_box(objects@, i as int)) by {
            reveal(body_box);
        }
        let mut j: usize = i + 1;
        while j < n
            invariant
                n == objects@.len(),
                i < j <= n,
                current == body_box(objects@, i as int),
                pairs@ == before + row_pairs(objects@, i as int, j as int),
            decreases n - j,
        {
            let test = objects[j].shape().compute_aabb(&objects[j].position);
            assert(test == body_box(objects@, j as int)) by {
                reveal(body_box);
            }
            if current.interects(&test) {
                pairs.push((i, j));
                assert(pairs@ =~= before + row_pairs(objects@, i as int, j as int + 1));
            }
            j += 1;
        }
        i += 1;
    }
    proof {
        lemma_candidate_pairs(objects@);
    }
    pairs
}

/// Both numbers are positive, or both are negative.
pub open spec fn same_sign(a: Scalar, b: Scalar) -> bool {
    (a@ > 0 && b@ > 0) || (a@ < 0 && b@ < 0)
}

/// The two velocities have the same sign on every axis, and none of their
/// components is zero.
pub open spec fn same_direction(v: Vector3, w: Vector3) -> bool {
    same_sign(v.x, w.x) && same_sign(v.y, w.y) && same_sign(v.z, w.z)
}

/// Whether both numbers are positive or both negative.
fn is_same_sign(a: Scalar, b: Scalar) -> (r: bool)
    ensures
        r == same_sign(a, b),
{
    let zero = Scalar::zero();
    (a.gt(zero) && b.gt(zero)) || (a.lt(zero) && b.lt(zero))
}

/// The manifold of body `a` against body `b`.
///
/// Two bodies whose velocities have the same sign on all three axes are
/// taken not to touch, whatever their shapes and placements. Otherwise two
/// spheres get the manifold of two spheres, and a sphere and a plane, in
/// either order, that of a sphere and a plane. Every other combination of
/// shapes is taken not to touch.
pub open spec fn manifold_between(a: GameObject, b: GameObject) -> ManifoldView {
    if same_direction(a.velocity, b.velocity) {
        ManifoldView::none()
    } else {
        match (a.shape, b.shape) {
            (Shape::Sphere(s1), Shape::Sphere(s2)) => ManifoldView::sphere_sphere(
                s1,
                s2,
                a.position,
                b.position,
            ),
            (Shape::Plane(p), Shape::Sphere(s)) => ManifoldView::sphere_plane(
                s,
                p,
                b.position,
                a.position,
            ),
            (Shape::Sphere(s), Shape::Plane(p)) => ManifoldView::sphere_plane(
                s,
                p,
                a.position,
                b.position,
            ),
            _ => ManifoldView::none(),
        }
    }
}

/// The manifold of one body against another.
pub fn manifold_of(a: &GameObject, b: &GameObject) -> (r: CollisionManifold)
    ensures
        r@ == manifold_between(*a, *b),
{
    if is_same_sign(a.velocity.x, b.velocity.x) && is_same_sign(a.velocity.y, b.velocity.y)
        && is_same_sign(a.velocity.z, b.velocity.z) {
        return CollisionManifold::new();
    }
    match (a.shape(), b.shape()) {
        (Shape::Sphere(s1), Shape::Sphere(s2)) => CollisionManifold::sphere_sphere(
            s1,
            s2,
            &a.position,
            &b.position,
        ),
        (Shape::Plane(p), Shape::Sphere(s)) => CollisionManifold::sphere_plane(
            s,
            p,
            &b.position,
            &a.position,
        ),
        (Shape::Sphere(s), Shape::Plane(p)) => CollisionManifold::sphere_plane(
            s,
            p,
            &a.position,
            &b.position,
        ),
        _ => CollisionManifold::new(),
    }
}

/// The narrow phase: one manifold for each pair, in the order of `pairs`.
pub fn narrow_phase(
    objects: &Vec<GameObject>,
    pairs: &Vec<(usize, usize)>,
) -> (manifolds: Vec<CollisionManifold>)
    requires
        pairs_in_range(pairs@, objects@.len()),
    ensures
        manifolds@.len() == pairs@.len(),
        forall|k: int|
            0 <= k < pairs@.len() ==> (#[trigger] manifolds@[k])@ == manifold_between(
                objects@[pairs@[k].0 as int],
                objects@[pairs@[k].1 as int],
            ),
{
    let mut manifolds: Vec<CollisionManifold> = Vec::new();
    let mut k: usize = 0;
    while k < pairs.len()
        invariant
            k <= pairs@.len(),
            pairs_in_range(pairs@, objects@.len()),
            manifolds@.len() == k,
            forall|m: int|
                0 <= m < k ==> (#[trigger] manifolds@[m])@ == manifold_between(
                    objects@[pairs@[m].0 as int],
                    objects@[pairs@[m].1 as int],
                ),
        decreases pairs@.len() - k,
    {
        let pair = pairs[k];
        assert(pairs@[k as int].0 < objects@.len() && pairs@[k as int].1 < objects@.len());
        manifolds.push(manifold_of(&objects[pair.0], &objects[pair.1]));
        k += 1;
    }
    manifolds
}

/// Downward acceleration of free fall, in raw units.
pub const GRAVITY_RAW: i64 = 9_820_000;

/// The acceleration of free fall: straight down the y axis.
pub open spec fn gravity_spec() -> Vector3 {
    Vector3::new(Scalar::zero(), Scalar { raw: GRAVITY_RAW }.neg(), Scalar::zero())
}

/// The acceleration of free fall: straight down the y axis.
#[verifier::when_used_as_spec(gravity_spec)]
pub fn gravity() -> (r: Vector3)
    ensures
        r == gravity_spec(),
{
    Vector3::new(Scalar::zero(), Scalar::from_raw(GRAVITY_RAW).neg(), Scalar::zero())
}

/// The first body of a contact after the contact: it loses its share of
/// the impulse and of the friction, and the turn that the impulse causes
/// at `r`. Each is divided by the number of contacts of the manifold.
pub open spec fn pushed_back(
    b: GameObject,
    normal: Vector3,
    r: Vector3,
    inv_tensor: Matrix3,
    count: Scalar,
    impulse: (Scalar, Vector3),
) -> GameObject {
    GameObject {
        velocity: b.velocity.sub(normal.scale(impulse.0).add(impulse.1).div(count)),
        angular_velocity: b.angular_velocity.sub(
            inv_tensor.mul_vec(r.cross(normal.scale(impulse.0))).div(count),
        ),
        ..b
    }
}

/// The second body of a contact after the contact: it gains what
/// [`pushed_back`] takes from the first.
pub open spec fn pushed_on(
    b: GameObject,
    normal: Vector3,
    r: Vector3,
    inv_tensor: Matrix3,
    count: Scalar,
    impulse: (Scalar, Vector3),
) -> GameObject {
    GameObject {
        velocity: b.velocity.add(normal.scale(impulse.0).add(impulse.1).div(count)),
        angular_velocity: b.angular_velocity.add(
            inv_tensor.mul_vec(r.cross(normal.scale(impulse.0))).div(count),
        ),
        ..b
    }
}

/// The bodies after one contact between bodies `i` and `j`, with `i != j`.
pub open spec fn after_contact(
    objects: Seq<GameObject>,
    i: int,
    j: int,
    normal: Vector3,
    tensor_1: Matrix3,
    tensor_2: Matrix3,
    count: Scalar,
    contact: Vector3,
) -> Seq<GameObject> {
    let b1 = objects[i];
    let b2 = objects[j];
    let r1 = contact.sub(b1.position.translation);
    let r2 = contact.sub(b2.position.translation);
    objects.update(
        i,
        pushed_back(
            b1,
            normal,
            r1,
            tensor_1,
            count,
            body_impulse(b1, b2, r1, r2, normal, b1.inverse_mass),
        ),
    ).update(
        j,
        pushed_on(
            b2,
            normal,
            r2,
            tensor_2,
            count,
            body_impulse(b1, b2, r1, r2, normal, b2.inverse_mass),
        ),
    )
}

/// The bodies after the first `upto` contacts of a manifold between
/// bodies `i` and `j`, one after the other.
pub open spec fn after_contacts(
    objects: Seq<GameObject>,
    i: int,
    j: int,
    manifold: ManifoldView,
    tensor_1: Matrix3,
    tensor_2: Matrix3,
    count: Scalar,
    upto: nat,
) -> Seq<GameObject>
    decreases upto,
{
    if upto == 0 {
        objects
    } else {
        after_contact(
            after_contacts(
                objects,
                i,
                j,
                manifold,
                tensor_1,
                tensor_2,
                count,
                (upto - 1) as nat,
            ),
            i,
            j,
            manifold.normal,
            tensor_1,
            tensor_2,
            count,
            manifold.contacts[upto - 1],
        )
    }
}

/// The bodies after one manifold between the bodies of `pair`. A manifold
/// that does not collide changes nothing.
pub open spec fn after_manifold(
    objects: Seq<GameObject>,
    pair: (usize, usize),
    manifold: ManifoldView,
) -> Seq<GameObject> {
    if manifold.colliding {
        after_contacts(
            objects,
            pair.0 as int,
            pair.1 as int,
            manifold,
            objects[pair.0 as int].inv_tensor(),
            objects[pair.1 as int].inv_tensor(),
            Scalar::of(manifold.contacts.len() * SCALE),
            manifold.contacts.len(),
        )
    } else {
        objects
    }
}

/// The bodies after the first `upto` manifolds, one after the other.
pub open spec fn after_manifolds(
    objects: Seq<GameObject>,
    pairs: Seq<(usize, usize)>,
    manifolds: Seq<ManifoldView>,
    upto: nat,
) -> Seq<GameObject>
    decreases upto,
{
    if upto == 0 {
        objects
    } else {
        after_manifold(
            after_manifolds(objects, pairs, manifolds, (upto - 1) as nat),
            pairs[upto - 1],
            manifolds[upto - 1],
        )
    }
}

/// The manifolds of the narrow phase, as values of the logic.
pub open spec fn manifolds_between(
    objects: Seq<GameObject>,
    pairs: Seq<(usize, usize)>,
) -> Seq<ManifoldView> {
    Seq::new(
        pairs.len(),
        |k: int| manifold_between(objects[pairs[k].0 as int], objects[pairs[k].1 as int]),
    )
}

/// The bodies after every collision among them is resolved.
pub open spec fn resolved(objects: Seq<GameObject>) -> Seq<GameObject> {
    let pairs = candidate_pairs(objects);
    after_manifolds(objects, pairs, manifolds_between(objects, pairs), pairs.len())
}

/// One body after gravity and one step of integration. Gravity pulls on
/// every body whose inverse mass exceeds the resolution of the numbers,
/// with a force of its mass times the acceleration of free fall.
pub open spec fn body_advanced(b: GameObject, dt: Scalar) -> GameObject {
    if b.inverse_mass@ > Scalar::epsilon()@ {
        GameObject { force_accum: b.force_accum.add(gravity().scale(b.mass())), ..b }.integrate_spec(
            dt,
        )
    } else {
        b.integrate_spec(dt)
    }
}

/// Every body after gravity and one step of integration.
pub open spec fn advanced(objects: Seq<GameObject>, dt: Scalar) -> Seq<GameObject> {
    Seq::new(objects.len(), |k: int| body_advanced(objects[k], dt))
}

/// The bodies one tick later: collisions are found and resolved, then
/// every body is advanced.
pub open spec fn stepped(objects: Seq<GameObject>, dt: Scalar) -> Seq<GameObject> {
    advanced(resolved(objects), dt)
}

/// The views of the manifolds, in order.
pub open spec fn manifold_views(manifolds: Seq<CollisionManifold>) -> Seq<ManifoldView> {
    Seq::new(manifolds.len(), |k: int| manifolds[k]@)
}

/// The body stands within the reach of the box around a plane, and if it
/// is a sphere, its radius is within that reach too.
pub open spec fn within_reach(b: GameObject) -> bool {
    &&& in_reach(b.position.translation)
    &&& match b.shape {
        Shape::Sphere(s) => 0 <= s.radius@ <= HALF_MAX_RAW,
        _ => true,
    }
}

/// The broad phase loses no collision: two bodies within reach for which
/// the narrow phase finds a collision are among the candidate pairs.
pub proof fn lemma_no_collision_missed(objects: Seq<GameObject>, i: int, j: int)
    requires
        0 <= i < j < objects.len() <= usize::MAX,
        within_reach(objects[i]),
        within_reach(objects[j]),
        manifold_between(objects[i], objects[j]).colliding,
    ensures
        boxes_meet(objects, i, j),
        lists_pair(candidate_pairs(objects), i, j),
{
    let a = objects[i];
    let b = objects[j];
    assert(boxes_meet(objects, i, j)) by {
        reveal(body_box);
        match (a.shape, b.shape) {
            (Shape::Sphere(s1), Shape::Sphere(s2)) => {
                lemma_colliding_spheres_boxes_meet(s1, s2, a.position, b.position);
            },
            (Shape::Plane(p), Shape::Sphere(s)) => {
                lemma_plane_box_meets_sphere_box(s, p, b.position, a.position);
            },
            (Shape::Sphere(s), Shape::Plane(p)) => {
                lemma_plane_box_meets_sphere_box(s, p, a.position, b.position);
            },
            _ => {},
        }
    }
    lemma_candidate_pairs(objects);
}

/// The broad phase keeps bodies whose boxes only touch: two bodies whose
/// boxes share a face across the x axis, and are not apart on the two
/// other axes, are among the candidate pairs.
pub proof fn lemma_touching_bodies_are_candidates(objects: Seq<GameObject>, i: int, j: int)
    requires
        0 <= i < j < objects.len() <= usize::MAX,
        body_box(objects, i).wf(),
        body_box(objects, j).wf(),
        body_box(objects, i).maxs.x == body_box(objects, j).mins.x || body_box(objects, j).maxs.x
            == body_box(objects, i).mins.x,
        !AABB::apart(
            body_box(objects, i).mins.y,
            body_box(objects, i).maxs.y,
            body_box(objects, j).mins.y,
            body_box(objects, j).maxs.y,
        ),
        !AABB::apart(
            body_box(objects, i).mins.z,
            body_box(objects, i).maxs.z,
            body_box(objects, j).mins.z,
            body_box(objects, j).maxs.z,
        ),
    ensures
        boxes_meet(objects, i, j),
        lists_pair(candidate_pairs(objects), i, j),
{
    let a = body_box(objects, i);
    let b = body_box(objects, j);
    assert(a.intersects_spec(&b));
    assert(boxes_meet(objects, i, j));
    lemma_candidate_pairs(objects);
}

/// One contact changes the velocities of its two bodies and nothing
/// else, and it changes nothing of a body that cannot be moved.
pub proof fn lemma_after_contact(
    objects: Seq<GameObject>,
    i: int,
    j: int,
    normal: Vector3,
    tensor_1: Matrix3,
    tensor_2: Matrix3,
    count: Scalar,
    contact: Vector3,
    k: int,
)
    requires
        0 <= i < objects.len(),
        0 <= j < objects.len(),
        0 <= k < objects.len(),
        i != j,
        objects[i].immovable() ==> tensor_1 == Matrix3::zeros(),
        objects[j].immovable() ==> tensor_2 == Matrix3::zeros(),
    ensures
        after_contact(objects, i, j, normal, tensor_1, tensor_2, count, contact).len()
            == objects.len(),
        objects[k].differs_in_velocities_only(
            after_contact(objects, i, j, normal, tensor_1, tensor_2, count, contact)[k],
        ),
        k != i && k != j ==> after_contact(
            objects,
            i,
            j,
            normal,
            tensor_1,
            tensor_2,
            count,
            contact,
        )[k] == objects[k],
        objects[k].immovable() ==> after_contact(
            objects,
            i,
            j,
            normal,
            tensor_1,
            tensor_2,
            count,
            contact,
        )[k] == objects[k],
{
    let b1 = objects[i];
    let b2 = objects[j];
    let r1 = contact.sub(b1.position.translation);
    let r2 = contact.sub(b2.position.translation);
    if objects[k].immovable() && (k == i || k == j) {
        lemma_body_impulse_immovable(b1, b2, r1, r2, normal);
        let r = if k == i {
            r1
        } else {
            r2
        };
        lemma_vector_scale_zero(normal, count);
        lemma_vector_add_zero(Vector3::zero());
        lemma_vector_add_zero(objects[k].velocity);
        lemma_vector_add_zero(objects[k].angular_velocity);
        lemma_vector_products_zero(r);
        lemma_vector_products_zero(Vector3::zero());
    }
}

/// A ball bounces off the ground by the restitution.
///
/// A ball that does not spin falls or rises along the y axis, and touches,
/// straight below or above its centre, a level body that cannot be moved
/// and is at rest. After the contact, alone in its manifold, the ball
/// moves along the y axis still, and its velocity is the old one reversed
/// and scaled by the restitution of the two: with a restitution of zero it
/// stops, with one of one it leaves as fast as it came. The rounding of
/// the division by the inverse mass may cost one raw unit, and costs
/// nothing where the inverse mass divides one.
pub proof fn lemma_bounce_off_ground(ball: GameObject, ground: GameObject, r1: Vector3, r2: Vector3)
    requires
        ball.wf(),
        ground.wf(),
        0 < ball.inverse_mass@ <= SCALE,
        ground.immovable(),
        ground.velocity == Vector3::zero(),
        ground.angular_velocity == Vector3::zero(),
        ball.angular_velocity == Vector3::zero(),
        ball.velocity.x == Scalar::zero(),
        ball.velocity.z == Scalar::zero(),
        -500_000_000_000 <= ball.velocity.y@ <= 500_000_000_000,
        r1.x == Scalar::zero(),
        r1.z == Scalar::zero(),
    ensures
        ({
            let up = Vector3::new(Scalar::zero(), Scalar::one(), Scalar::zero());
            let after = pushed_back(
                ball,
                up,
                r1,
                ball.inv_tensor(),
                Scalar::one(),
                body_impulse(ball, ground, r1, r2, up, ball.inverse_mass),
            );
            let bounce = restitution(ball, ground).mul(ball.velocity.y).neg();
            &&& after.velocity.x == Scalar::zero()
            &&& after.velocity.z == Scalar::zero()
            &&& bounce@ - 1 <= after.velocity.y@ <= bounce@ + 1
            &&& (SCALE as int) % ball.inverse_mass@ == 0 ==> after.velocity.y == bounce
            &&& after.angular_velocity == Vector3::zero()
        }),
{
    let zero = Scalar::zero();
    let up = Vector3::new(zero, Scalar::one(), zero);
    let vy = ball.velocity.y;
    let e = restitution(ball, ground);

    // The ground is seen to move against the ball.
    let v = relative_velocity(ball, ground, r1, r2);
    assert(v == Vector3::new(zero, vy.neg(), zero)) by {
        lemma_vector_products_zero(r1);
        lemma_vector_products_zero(r2);
        lemma_vector_add_zero(Vector3::zero());
        lemma_vector_add_zero(ball.velocity);
    }
    assert(v.dot(up) == vy.neg()) by {
        lemma_along_y(vy.neg(), Scalar::one());
        lemma_mul_one(vy.neg());
    }

    // Nothing turns: the contact lies on the line of the normal.
    lemma_immovable_tensor(ground);
    assert(angular_term(ball.inv_tensor(), r1, up) == zero) by {
        lemma_along_y(r1.y, Scalar::one());
        let tensor = ball.inv_tensor();
        lemma_vector_products_zero(tensor.r0);
        lemma_vector_products_zero(tensor.r1);
        lemma_vector_products_zero(tensor.r2);
        lemma_vector_products_zero(r1);
        lemma_vector_products_zero(up);
    }
    assert(angular_term(ground.inv_tensor(), r2, up) == zero) by {
        lemma_vector_products_zero(r2.cross(up));
        lemma_vector_products_zero(r2);
        lemma_vector_products_zero(up);
    }
    assert(impulse_denominator(ball, ground, r1, r2, up) == ball.inverse_mass) by {
        lemma_add_zero(ball.inverse_mass);
    }

    // The impulse along the normal, and the ball's share of it.
    let wanted = vy.add(e.mul(vy));
    lemma_mul_one_plus(e, vy);
    let j = impulse_along(ball, ground, r1, r2, up);
    assert(j == wanted.div(ball.inverse_mass)) by {
        reveal(impulse_along);
    }
    lemma_div_mul_back(wanted, ball.inverse_mass);
    let share = j.mul(ball.inverse_mass);

    // Nothing slides, so there is no friction.
    let t = tangent(ball, ground, r1, r2, up);
    assert(t == Vector3::zero()) by {
        reveal(tangent);
        lemma_along_y(vy.neg(), Scalar::one());
        lemma_mul_one(vy.neg());
        lemma_normalize_zero();
    }
    assert(body_impulse(ball, ground, r1, r2, up, ball.inverse_mass) == (share, Vector3::zero()))
        by {
        reveal(body_impulse);
        lemma_vector_scale_zero(Vector3::zero(), friction_along(ball, ground, r1, r2, up));
        lemma_vector_scale_zero(Vector3::zero(), ball.inverse_mass);
    }

    // What the share does to the ball.
    assert(up.scale(share).add(Vector3::zero()).div(Scalar::one()) == Vector3::new(
        zero,
        share,
        zero,
    )) by {
        lemma_along_y(share, Scalar::one());
        lemma_vector_add_zero(up.scale(share));
        lemma_mul_one(share);
        lemma_mul_one(zero);
    }
    assert(ball.inv_tensor().mul_vec(r1.cross(up.scale(share))).div(Scalar::one())
        == Vector3::zero()) by {
        lemma_along_y(share, Scalar::one());
        lemma_along_y(r1.y, share);
        let tensor = ball.inv_tensor();
        lemma_vector_products_zero(tensor.r0);
        lemma_vector_products_zero(tensor.r1);
        lemma_vector_products_zero(tensor.r2);
        lemma_vector_scale_zero(Vector3::zero(), Scalar::one());
    }
    lemma_vector_add_zero(ball.angular_velocity);
    lemma_add_zero(zero);
}

/// The contacts of one manifold change the velocities of its two bodies
/// and nothing else, and nothing of a body that cannot be moved.
pub proof fn lemma_after_contacts(
    objects: Seq<GameObject>,
    i: int,
    j: int,
    manifold: ManifoldView,
    tensor_1: Matrix3,
    tensor_2: Matrix3,
    count: Scalar,
    upto: nat,
    k: int,
)
    requires
        0 <= i < objects.len(),
        0 <= j < objects.len(),
        0 <= k < objects.len(),
        i != j,
        objects[i].immovable() ==> tensor_1 == Matrix3::zeros(),
        objects[j].immovable() ==> tensor_2 == Matrix3::zeros(),
    ensures
        after_contacts(objects, i, j, manifold, tensor_1, tensor_2, count, upto).len()
            == objects.len(),
        objects[k].differs_in_velocities_only(
            after_contacts(objects, i, j, manifold, tensor_1, tensor_2, count, upto)[k],
        ),
        objects[k].immovable() ==> after_contacts(
            objects,
            i,
            j,
            manifold,
            tensor_1,
            tensor_2,
            count,
            upto,
        )[k] == objects[k],
    decreases upto,
{
    if upto > 0 {
        let before = after_contacts(
            objects,
            i,
            j,
            manifold,
            tensor_1,
            tensor_2,
            count,
            (upto - 1) as nat,
        );
        lemma_after_contacts(
            objects,
            i,
            j,
            manifold,
            tensor_1,
            tensor_2,
            count,
            (upto - 1) as nat,
            i,
        );
        lemma_after_contacts(
            objects,
            i,
            j,
            manifold,
            tensor_1,
            tensor_2,
            count,
            (upto - 1) as nat,
            j,
        );
        lemma_after_contacts(
            objects,
            i,
            j,
            manifold,
            tensor_1,
            tensor_2,
            count,
            (upto - 1) as nat,
            k,
        );
        lemma_after_contact(
            before,
            i,
            j,
            manifold.normal,
            tensor_1,
            tensor_2,
            count,
            manifold.contacts[upto - 1],
            k,
        );
    }
}

/// Resolving manifolds changes the velocities of bodies and nothing else,
/// and nothing of a body that cannot be moved.
pub proof fn lemma_after_manifolds(
    objects: Seq<GameObject>,
    pairs: Seq<(usize, usize)>,
    manifolds: Seq<ManifoldView>,
    upto: nat,
    k: int,
)
    requires
        upto <= pairs.len(),
        valid_pairs(pairs, objects.len()),
        0 <= k < objects.len(),
    ensures
        after_manifolds(objects, pairs, manifolds, upto).len() == objects.len(),
        objects[k].differs_in_velocities_only(after_manifolds(objects, pairs, manifolds, upto)[k]),
        objects[k].immovable() ==> after_manifolds(objects, pairs, manifolds, upto)[k]
            == objects[k],
    decreases upto,
{
    if upto > 0 {
        lemma_after_manifolds(objects, pairs, manifolds, (upto - 1) as nat, k);
        let before = after_manifolds(objects, pairs, manifolds, (upto - 1) as nat);
        let m = manifolds[upto - 1];
        let pair = pairs[upto - 1];
        if m.colliding {
            if before[pair.0 as int].immovable() {
                lemma_immovable_tensor(before[pair.0 as int]);
            }
            if before[pair.1 as int].immovable() {
                lemma_immovable_tensor(before[pair.1 as int]);
            }
            lemma_after_contacts(
                before,
                pair.0 as int,
                pair.1 as int,
                m,
                before[pair.0 as int].inv_tensor(),
                before[pair.1 as int].inv_tensor(),
                Scalar::of(m.contacts.len() * SCALE),
                m.contacts.len(),
                k,
            );
        }
    }
}

/// Resolving the collisions of a scene keeps every body in its place,
/// changes nothing but velocities, and changes nothing at all of a body
/// that cannot be moved.
pub proof fn lemma_resolved_bodies(objects: Seq<GameObject>, k: int)
    requires
        objects.len() <= usize::MAX,
        0 <= k < objects.len(),
    ensures
        resolved(objects).len() == objects.len(),
        objects[k].differs_in_velocities_only(resolved(objects)[k]),
        objects[k].immovable() ==> resolved(objects)[k] == objects[k],
{
    lemma_candidate_pairs(objects);
    let pairs = candidate_pairs(objects);
    lemma_after_manifolds(objects, pairs, manifolds_between(objects, pairs), pairs.len(), k);
}

/// A tick keeps every body in its place and made of what it was made of,
/// and leaves its accumulators empty.
pub proof fn lemma_stepped_bodies(objects: Seq<GameObject>, dt: Scalar, k: int)
    requires
        objects.len() <= usize::MAX,
        0 <= k < objects.len(),
    ensures
        stepped(objects, dt).len() == objects.len(),
        objects[k].same_material(stepped(objects, dt)[k]),
        stepped(objects, dt)[k].wf() == objects[k].wf(),
        stepped(objects, dt)[k].force_accum == Vector3::zero(),
        stepped(objects, dt)[k].torque_accum == Vector3::zero(),
        stepped(objects, dt)[k].position.rotation.in_unit_range(),
{
    lemma_resolved_bodies(objects, k);
    let b = resolved(objects)[k];
    lemma_integrate_keeps_material(b, dt);
    lemma_integrate_keeps_material(
        GameObject { force_accum: b.force_accum.add(gravity().scale(b.mass())), ..b },
        dt,
    );
}

/// A ball and level ground: the ball is a sphere that does not spin and
/// moves along the y axis, within reach, at or above the height of the
/// ground and close enough to touch it; the ground is a plane that is not
/// turned, has the y axis as its normal, cannot be moved and is at rest.
pub open spec fn ball_on_ground(ball: GameObject, ground: GameObject) -> bool {
    &&& ball.wf()
    &&& ground.wf()
    &&& ball.shape is Sphere
    &&& ground.shape == Shape::Plane(
        Plane::new(Vector3::new(Scalar::zero(), Scalar::one(), Scalar::zero())),
    )
    &&& ground.position.rotation == Quaternion::identity()
    &&& ground.immovable()
    &&& ground.velocity == Vector3::zero()
    &&& ground.angular_velocity == Vector3::zero()
    &&& 0 < ball.inverse_mass@ <= SCALE
    &&& ball.angular_velocity == Vector3::zero()
    &&& ball.velocity.x == Scalar::zero()
    &&& ball.velocity.z == Scalar::zero()
    &&& -500_000_000_000 <= ball.velocity.y@ <= 500_000_000_000
    &&& in_reach(ball.position.translation)
    &&& in_reach(ground.position.translation)
    &&& ball.shape->Sphere_0.radius@ <= HALF_MAX_RAW
    &&& 0 <= ball.position.translation.y@ - ground.position.translation.y@
        <= ball.shape->Sphere_0.radius@
}

/// A ball dropped on level ground bounces by the restitution.
///
/// In a scene of a ball and the ground alone, resolving the collisions
/// leaves the ground as it is and the ball where it is, and reverses the
/// ball's velocity along the y axis, scaled by the restitution of the two:
/// with a restitution of zero the ball stops, with one of one it leaves as
/// fast as it came. Rounding may cost one raw unit, and costs nothing
/// where the ball's inverse mass divides one.
pub proof fn lemma_dropped_ball_bounces(ball: GameObject, ground: GameObject)
    requires
        ball_on_ground(ball, ground),
    ensures
        ({
            let after = resolved(seq![ball, ground]);
            let bounce = restitution(ball, ground).mul(ball.velocity.y).neg();
            &&& after.len() == 2
            &&& after[1] == ground
            &&& ball.differs_in_velocities_only(after[0])
            &&& after[0].velocity.x == Scalar::zero()
            &&& after[0].velocity.z == Scalar::zero()
            &&& bounce@ - 1 <= after[0].velocity.y@ <= bounce@ + 1
            &&& (SCALE as int) % ball.inverse_mass@ == 0 ==> after[0].velocity.y == bounce
            &&& after[0].angular_velocity == Vector3::zero()
        }),
{
    let objects = seq![ball, ground];
    let up = Vector3::new(Scalar::zero(), Scalar::one(), Scalar::zero());
    let level = Plane::new(up);
    let sphere = ball.shape->Sphere_0;

    // The broad phase finds the one pair.
    assert(boxes_meet(objects, 0, 1)) by {
        reveal(body_box);
        lemma_plane_box_meets_sphere_box(sphere, level, ball.position, ground.position);
    }
    let pairs = candidate_pairs(objects);
    assert(pairs =~= seq![(0usize, 1usize)]) by {
        reveal_with_fuel(pairs_below, 3);
        reveal_with_fuel(row_pairs, 3);
    }

    // The narrow phase finds the ball on the ground.
    let m = manifold_between(ball, ground);
    lemma_sphere_over_level_plane(sphere, ball.position, ground.position);
    let drop = ground.position.translation.y.sub(ball.position.translation.y);
    let contact = ball.position.translation.add(Vector3::new(Scalar::zero(), drop, Scalar::zero()));
    assert(m.colliding && m.normal == up && m.contacts =~= seq![contact]);
    let manifolds = manifolds_between(objects, pairs);
    assert(manifolds[0] == m);

    // One manifold of one contact is resolved.
    let tensor_1 = ball.inv_tensor();
    let tensor_2 = ground.inv_tensor();
    let after = resolved(objects);
    assert(after == after_contact(objects, 0, 1, up, tensor_1, tensor_2, Scalar::one(), contact))
        by {
        reveal_with_fuel(after_manifolds, 2);
        reveal_with_fuel(after_contacts, 2);
        assert(Scalar::of(1 * SCALE) == Scalar::one());
    }
    let r1 = contact.sub(ball.position.translation);
    let r2 = contact.sub(ground.position.translation);
    lemma_add_zero(ball.position.translation.x);
    lemma_add_zero(ball.position.translation.z);
    lemma_immovable_tensor(ground);
    lemma_after_contact(objects, 0, 1, up, tensor_1, tensor_2, Scalar::one(), contact, 0);
    lemma_after_contact(objects, 0, 1, up, tensor_1, tensor_2, Scalar::one(), contact, 1);
    lemma_bounce_off_ground(ball, ground, r1, r2);
}

/// A tick does nothing to a body that cannot be moved but integrate it:
/// no collision pushes it and gravity does not pull on it.
pub proof fn lemma_stepped_immovable(objects: Seq<GameObject>, dt: Scalar, k: int)
    requires
        objects.len() <= usize::MAX,
        0 <= k < objects.len(),
        objects[k].immovable(),
    ensures
        stepped(objects, dt)[k] == objects[k].integrate_spec(dt),
{
    lemma_resolved_bodies(objects, k);
}

/// Ground stays put: a body that cannot be moved, is at rest, has nothing
/// acting on it and stands in an orientation that normalising leaves as it
/// is, is the same body after a tick.
pub proof fn lemma_static_body_stays(objects: Seq<GameObject>, dt: Scalar, k: int)
    requires
        objects.len() <= usize::MAX,
        0 <= k < objects.len(),
        objects[k].immovable(),
        objects[k].velocity == Vector3::zero(),
        objects[k].angular_velocity == Vector3::zero(),
        objects[k].acceleration == Vector3::zero(),
        objects[k].angular_acceleration == Vector3::zero(),
        objects[k].force_accum == Vector3::zero(),
        objects[k].torque_accum == Vector3::zero(),
        objects[k].position.rotation.normalize() == objects[k].position.rotation,
    ensures
        stepped(objects, dt)[k] == objects[k],
{
    lemma_stepped_immovable(objects, dt, k);
    lemma_integrate_free_body(objects[k], dt);
    lemma_integrate_without_spin(objects[k], dt);
    lemma_vector_scale_zero(Vector3::zero(), dt);
    lemma_vector_scale_zero(Vector3::zero(), crate::scene::game_object::damping_factor());
    lemma_vector_add_zero(objects[k].position.translation);
}

/// All the bodies of a simulation, in the order in which they were added.
pub struct PhysicsScene {
    objects: Vec<GameObject>,
}

impl View for PhysicsScene {
    type V = Seq<GameObject>;

    /// The bodies, in order.
    closed spec fn view(&self) -> Seq<GameObject> {
        self.objects@
    }
}

impl PhysicsScene {
    /// A scene without bodies.
    pub fn new() -> (r: PhysicsScene)
        ensures
            r@ == Seq::<GameObject>::empty(),
    {
        PhysicsScene { objects: Vec::new() }
    }

    /// Adds a body behind the others.
    pub fn add(&mut self, object: GameObject)
        ensures
            final(self)@ == old(self)@.push(object),
    {
        self.objects.push(object);
    }

    /// Takes the body at `index` out. The bodies behind it move up by one.
    pub fn remove(&mut self, index: usize)
        requires
            index < old(self)@.len(),
        ensures
            final(self)@ == old(self)@.remove(index as int),
    {
        self.objects.remove(index);
    }

    /// The bodies, in order.
    pub fn objects(&self) -> (r: &[GameObject])
        ensures
            r@ == self@,
    {
        self.objects.as_slice()
    }

    /// The impulses of one contact between the bodies at `index_1` and
    /// `index_2`, the first for the one and the second for the other.
    pub fn calculate_impulse(
        &self,
        index_1: usize,
        index_2: usize,
        manifold_normal: &Vector3,
        r_1: &Vector3,
        r_2: &Vector3,
    ) -> (r: [(Scalar, Vector3); 2])
        requires
            index_1 < self@.len(),
            index_2 < self@.len(),
        ensures
            r[0] == body_impulse(
                self@[index_1 as int],
                self@[index_2 as int],
                *r_1,
                *r_2,
                *manifold_normal,
                self@[index_1 as int].inverse_mass,
            ),
            r[1] == body_impulse(
                self@[index_1 as int],
                self@[index_2 as int],
                *r_1,
                *r_2,
                *manifold_normal,
                self@[index_2 as int].inverse_mass,
            ),
    {
        impulses_between(
            &self.objects[index_1],
            &self.objects[index_2],
            manifold_normal,
            r_1,
            r_2,
        )
    }

    /// Applies one contact between the bodies at `i` and `j`, with `i != j`:
    /// the first loses and the second gains its share of the impulse.
    fn apply_contact(
        &mut self,
        i: usize,
        j: usize,
        normal: &Vector3,
        tensor_1: &Matrix3,
        tensor_2: &Matrix3,
        count: Scalar,
        contact: &Vector3,
    )
        requires
            i < old(self)@.len(),
            j < old(self)@.len(),
            i != j,
        ensures
            final(self)@ == after_contact(
                old(self)@,
                i as int,
                j as int,
                *normal,
                *tensor_1,
                *tensor_2,
                count,
                *contact,
            ),
            final(self)@.len() == old(self)@.len(),
    {
        let b1 = self.objects[i];
        let b2 = self.objects[j];
        let r1 = contact.sub(b1.position.translation);
        let r2 = contact.sub(b2.position.translation);
        let impulses = impulses_between(&b1, &b2, normal, &r1, &r2);

        let push_1 = normal.scale(impulses[0].0);
        let mut after_1 = b1;
        after_1.velocity = b1.velocity.sub(push_1.add(impulses[0].1).div(count));
        after_1.angular_velocity = b1.angular_velocity.sub(
            tensor_1.mul_vec(r1.cross(push_1)).div(count),
        );

        let push_2 = normal.scale(impulses[1].0);
        let mut after_2 = b2;
        after_2.velocity = b2.velocity.add(push_2.add(impulses[1].1).div(count));
        after_2.angular_velocity = b2.angular_velocity.add(
            tensor_2.mul_vec(r2.cross(push_2)).div(count),
        );

        self.objects[i] = after_1;
        self.objects[j] = after_2;
    }

    /// Resolves one manifold between the two bodies that `pair` names.
    /// Each contact of a colliding manifold changes the velocities of the
    /// two bodies by the impulses of [`PhysicsScene::calculate_impulse`],
    /// divided by the number of contacts. A manifold that does not collide
    /// changes nothing.
    pub fn resolve_manifold(&mut self, pair: (usize, usize), manifold: &CollisionManifold)
        requires
            pair.0 < pair.1 < old(self)@.len(),
        ensures
            final(self)@ == after_manifold(old(self)@, pair, manifold@),
            final(self)@.len() == old(self)@.len(),
    {
        if manifold.colliding {
            let ghost before = self.objects@;
            let count = Scalar::from_count(manifold.contacts.len());
            let tensor_1 = self.objects[pair.0].inv_tensor();
            let tensor_2 = self.objects[pair.1].inv_tensor();
            let mut c: usize = 0;
            while c < manifold.contacts.len()
                invariant
                    c <= manifold.contacts@.len(),
                    pair.0 < pair.1 < before.len(),
                    self.objects@.len() == before.len(),
                    self@ == after_contacts(
                        before,
                        pair.0 as int,
                        pair.1 as int,
                        manifold@,
                        tensor_1,
                        tensor_2,
                        count,
                        c as nat,
                    ),
                decreases manifold.contacts@.len() - c,
            {
                let contact = manifold.contacts[c];
                self.apply_contact(
                    pair.0,
                    pair.1,
                    &manifold.normal,
                    &tensor_1,
                    &tensor_2,
                    count,
                    &contact,
                );
                c += 1;
            }
        }
    }

    /// Resolves the manifolds one after the other: `manifolds[k]` is the
    /// manifold of the two bodies that `pairs[k]` names. Only velocities
    /// change.
    pub fn resolve(&mut self, pairs: &Vec<(usize, usize)>, manifolds: &Vec<CollisionManifold>)
        requires
            valid_pairs(pairs@, old(self)@.len()),
            manifolds@.len() == pairs@.len(),
        ensures
            final(self)@ == after_manifolds(
                old(self)@,
                pairs@,
                manifold_views(manifolds@),
                pairs@.len(),
            ),
            final(self)@.len() == old(self)@.len(),
    {
        let ghost views = manifold_views(manifolds@);
        let ghost start = self.objects@;
        let mut k: usize = 0;
        while k < manifolds.len()
            invariant
                k <= manifolds@.len(),
                manifolds@.len() == pairs@.len(),
                views == manifold_views(manifolds@),
                valid_pairs(pairs@, start.len()),
                self@.len() == start.len(),
                self@ == after_manifolds(start, pairs@, views, k as nat),
            decreases manifolds@.len() - k,
        {
            assert(pairs@[k as int].0 < pairs@[k as int].1 < start.len());
            assert(views[k as int] == manifolds@[k as int]@);
            self.resolve_manifold(pairs[k], &manifolds[k]);
            k += 1;
        }
    }

    /// Lets gravity pull on every body that can be moved, then advances
    /// every body by `time_step`.
    pub fn update_positions(&mut self, time_step: Scalar)
        ensures
            final(self)@ == advanced(old(self)@, time_step),
            final(self)@.len() == old(self)@.len(),
    {
        let ghost start = self.objects@;
        let mut k: usize = 0;
        while k < self.objects.len()
            invariant
                k <= start.len(),
                self.objects@.len() == start.len(),
                forall|m: int| 0 <= m < k ==> self.objects@[m] == body_advanced(start[m], time_step),
                forall|m: int| k <= m < start.len() ==> self.objects@[m] == start[m],
            decreases start.len() - k,
        {
            let mut body = self.objects[k];
            if body.inv_mass().gt(Scalar::epsilon()) {
                body.add_force(gravity().scale(body.mass()));
            }
            body.integrate(time_step);
            self.objects[k] = body;
            k += 1;
        }
        assert(self.objects@ =~= advanced(start, time_step));
    }

    /// Advances the scene by one tick of length `time_step`: the broad
    /// phase finds the pairs of bodies that may touch, the narrow phase
    /// gives each pair its manifold, the manifolds are resolved in order,
    /// and every body is advanced.
    pub fn update(&mut self, time_step: Scalar)
        ensures
            final(self)@ == stepped(old(self)@, time_step),
            final(self)@.len() == old(self)@.len(),
    {
        let pairs = broad_phase(&self.objects);
        let manifolds = narrow_phase(&self.objects, &pairs);
        assert(manifold_views(manifolds@) =~= manifolds_between(self.objects@, pairs@));
        self.resolve(&pairs, &manifolds);
        self.update_positions(time_step);
    }
}

} // verus!
