use raytracing::bvh_tree::bvh_node::{BVHNode, Child, Leaf};
use raytracing::hits::aabb::{Slab, AABB};
use raytracing::hits::hittable::{HitRecord, Surface};
use raytracing::hits::hittable_list::HittableList;
use raytracing::objects::sphere::{Contact, Roots, Sphere};
use raytracing::ray::Ray;
use raytracing::scalar::Scalar;
use raytracing::vec3::Vec3;

fn s(x: f64) -> Scalar {
    Scalar::from_bits(x.to_bits())
}

fn f(x: Scalar) -> f64 {
    f64::from_bits(x.to_bits())
}

fn v(x: f64, y: f64, z: f64) -> Vec3 {
    Vec3::new(s(x), s(y), s(z))
}

fn a(vector: Vec3) -> [f64; 3] {
    [f(vector.x()), f(vector.y()), f(vector.z())]
}

fn dot(u: [f64; 3], w: [f64; 3]) -> f64 {
    u[0] * w[0] + u[1] * w[1] + u[2] * w[2]
}

fn hit_sphere(sphere: &Sphere<usize>, r: &Ray, interval: (Scalar, Scalar)) -> Option<HitRecord<usize>> {
    let center = a(sphere.center);
    let radius = f(sphere.radius);
    let o = a(r.origin());
    let d = a(r.direction());
    let oc = [o[0] - center[0], o[1] - center[1], o[2] - center[2]];
    let aa = dot(d, d);
    let half_b = dot(oc, d);
    let c = dot(oc, oc) - radius * radius;
    let discrim = half_b * half_b - aa * c;
    let sqrtd = discrim.sqrt();
    let roots = Roots {
        discriminant: s(discrim),
        near: s((-half_b - sqrtd) / aa),
        far: s((-half_b + sqrtd) / aa),
    };
    let contact = |t: Scalar| -> Contact {
        let t = f(t);
        let p = [o[0] + t * d[0], o[1] + t * d[1], o[2] + t * d[2]];
        let n = [
            (p[0] - center[0]) / radius,
            (p[1] - center[1]) / radius,
            (p[2] - center[2]) / radius,
        ];
        Contact {
            surface: Surface {
                p: v(p[0], p[1], p[2]),
                u: s(0.0),
                v: s(0.0),
                direction_dot_normal: s(dot(d, n)),
            },
            outward_normal: v(n[0], n[1], n[2]),
        }
    };
    sphere.hit(roots, interval, &contact)
}

fn box_of(sphere: &Sphere<usize>) -> AABB {
    let c = a(sphere.center);
    let r = f(sphere.radius);
    AABB::new(v(c[0] - r, c[1] - r, c[2] - r), v(c[0] + r, c[1] + r, c[2] + r))
}

fn box_hit(b: &AABB, r: &Ray, interval: (Scalar, Scalar)) -> bool {
    let o = a(r.origin());
    let d = a(r.direction());
    let mut slabs = [Slab { inv_d: s(0.0), t0: s(0.0), t1: s(0.0) }; 3];
    for k in 0..3 {
        let inv_d = 1.0 / d[k];
        slabs[k] = Slab {
            inv_d: s(inv_d),
            t0: s((f(b.min().index(k)) - o[k]) * inv_d),
            t1: s((f(b.max().index(k)) - o[k]) * inv_d),
        };
    }
    AABB::hit(&slabs, interval)
}

fn scene() -> Vec<Sphere<usize>> {
    let mut spheres = Vec::new();
    let mut n = 0usize;
    for i in 0..5 {
        for j in 0..4 {
            for k in 0..3 {
                let jitter = ((i * 7 + j * 13 + k * 29) % 10) as f64 * 0.03;
                spheres.push(Sphere::new(
                    v(i as f64 * 1.5 + jitter, j as f64 * 1.25 - jitter, k as f64 * 2.0 + jitter),
                    s(0.4 + jitter),
                    n,
                ));
                n += 1;
            }
        }
    }
    spheres
}

fn leaves_of(spheres: &[Sphere<usize>]) -> Vec<Leaf> {
    spheres
        .iter()
        .map(|sphere| Leaf { still_box: box_of(sphere), hitbox: box_of(sphere) })
        .collect()
}

fn collect(node: &BVHNode, out: &mut Vec<usize>) {
    for side in [&node.left, &node.right] {
        match side {
            Some(Child::Primitive(i)) => out.push(*i),
            Some(Child::Node(sub)) => collect(sub, out),
            None => {},
        }
    }
}

fn check_node(node: &BVHNode, leaves: &[Leaf]) -> usize {
    match (&node.left, &node.right) {
        (Some(Child::Primitive(i)), None) => {
            assert_eq!(node.hitbox, leaves[*i].hitbox);
            1
        },
        (Some(Child::Primitive(_)), Some(Child::Primitive(_))) => 2,
        (Some(Child::Node(left)), Some(Child::Node(right))) => {
            let l = check_node(left, leaves);
            let r = check_node(right, leaves);
            assert!(l + r >= 3);
            assert_eq!(l, (l + r) / 2);
            let mut low = Vec::new();
            let mut high = Vec::new();
            collect(right, &mut low);
            collect(left, &mut high);
            let split = (0..3).any(|axis| {
                low.iter().all(|&x| {
                    high.iter().all(|&y| {
                        f(leaves[x].still_box.min().index(axis))
                            <= f(leaves[y].still_box.min().index(axis))
                    })
                })
            });
            assert!(split);
            l + r
        },
        _ => panic!("a node of another shape"),
    }
}

#[test]
fn hierarchy_holds_every_primitive_once() {
    for count in [1usize, 2, 3, 4, 5, 8, 17, 60] {
        let spheres = scene();
        let leaves = leaves_of(&spheres[..count]);
        let tree = BVHNode::new(&leaves);
        let mut found = Vec::new();
        collect(&tree, &mut found);
        found.sort();
        assert_eq!(found, (0..count).collect::<Vec<usize>>());
        assert_eq!(check_node(&tree, &leaves), count);
        let b = tree.bounding_box().unwrap();
        for leaf in leaves.iter() {
            for axis in 0..3 {
                assert!(f(b.min().index(axis)) <= f(leaf.hitbox.min().index(axis)));
                assert!(f(b.max().index(axis)) >= f(leaf.hitbox.max().index(axis)));
            }
        }
    }
}

#[test]
fn pair_is_put_in_either_order() {
    let spheres = scene();
    let leaves = leaves_of(&spheres[..2]);
    let mut first_left = 0;
    let mut first_right = 0;
    for _ in 0..200 {
        let tree = BVHNode::new(&leaves);
        match (&tree.left, &tree.right) {
            (Some(Child::Primitive(0)), Some(Child::Primitive(1))) => first_left += 1,
            (Some(Child::Primitive(1)), Some(Child::Primitive(0))) => first_right += 1,
            _ => panic!("a pair of another shape"),
        }
    }
    assert!(first_left > 0 && first_right > 0);
}

#[test]
fn ties_keep_the_order_of_a_stable_sort() {
    let b = AABB::new(v(0.0, 0.0, 0.0), v(1.0, 1.0, 1.0));
    let leaves = vec![Leaf { still_box: b, hitbox: b }; 3];
    let tree = BVHNode::new(&leaves);
    let mut found = Vec::new();
    collect(&tree, &mut found);
    assert_eq!(found[0], 2);
    found.sort();
    assert_eq!(found, vec![0, 1, 2]);
}

#[test]
fn default_node_is_empty() {
    let node = BVHNode::default();
    assert!(node.left.is_none() && node.right.is_none());
    assert_eq!(node.hitbox, AABB::default());
    let r = Ray::new(v(0.0, 0.0, -1.0), v(0.0, 0.0, 1.0), s(0.0));
    let box_test = |_b: &AABB, _r: &Ray, _i: (Scalar, Scalar)| -> bool { true };
    let probe = |_i: usize, _r: &Ray, _iv: (Scalar, Scalar)| -> Option<HitRecord<usize>> { None };
    assert!(node.hit(&r, (s(0.0), s(1.0)), &box_test, &probe).is_none());
}

fn rays() -> Vec<Ray> {
    let mut out = Vec::new();
    for i in 0..9 {
        for j in 0..7 {
            let x = i as f64 * 0.8 - 0.3;
            let y = j as f64 * 0.7 - 0.4;
            out.push(Ray::new(v(x, y, -10.0), v(0.01 * j as f64, -0.02 * i as f64, 1.0), s(0.0)));
            out.push(Ray::new(v(-10.0, y, x), v(1.0, 0.03 * i as f64, 0.0), s(0.0)));
            out.push(Ray::new(v(x, 20.0, y), v(0.0, -3.0, 0.1 * j as f64), s(0.0)));
        }
    }
    out.push(Ray::new(v(100.0, 100.0, 100.0), v(1.0, 1.0, 1.0), s(0.0)));
    out
}

#[test]
fn hierarchy_finds_what_the_list_finds() {
    let spheres = scene();
    let leaves = leaves_of(&spheres);
    let tree = BVHNode::new(&leaves);
    let mut list: HittableList<usize> = HittableList::new();
    for i in 0..spheres.len() {
        list.add(i);
    }
    let box_test = |b: &AABB, r: &Ray, interval: (Scalar, Scalar)| -> bool { box_hit(b, r, interval) };
    let probe = |i: usize, r: &Ray, interval: (Scalar, Scalar)| -> Option<HitRecord<usize>> {
        hit_sphere(&spheres[i], r, interval)
    };
    let list_probe = |i: &usize, r: &Ray, interval: (Scalar, Scalar)| -> Option<HitRecord<usize>> {
        hit_sphere(&spheres[*i], r, interval)
    };
    let mut hits = 0;
    for r in rays().iter() {
        for interval in [(s(0.001), s(f64::INFINITY)), (s(0.001), s(11.0)), (s(10.5), s(12.0))] {
            let from_tree = tree.hit(r, interval, &box_test, &probe);
            let from_list = list.hit(r, interval, &list_probe);
            match (from_tree, from_list) {
                (None, None) => {},
                (Some(one), Some(other)) => {
                    hits += 1;
                    assert_eq!(f(one.t), f(other.t));
                    assert_eq!(one.material, other.material);
                    assert_eq!(one.p, other.p);
                },
                _ => panic!("the tree and the list disagree"),
            }
        }
    }
    assert!(hits > 50);
}

#[test]
fn list_keeps_the_nearest_hit() {
    let mut list: HittableList<f64> = HittableList::new();
    assert!(HittableList::<f64>::default().list.is_empty());
    for t in [5.0, 3.0, 8.0, 3.0, 4.0] {
        list.add(t);
    }
    let r = Ray::new(v(0.0, 0.0, 0.0), v(0.0, 0.0, 1.0), s(0.0));
    let tested = std::cell::RefCell::new(Vec::new());
    let probe = |at: &f64, _r: &Ray, interval: (Scalar, Scalar)| -> Option<HitRecord<usize>> {
        tested.borrow_mut().push(f(interval.1));
        if *at < f(interval.0) || f(interval.1) < *at {
            return None;
        }
        Some(HitRecord {
            p: v(0.0, 0.0, *at),
            normal: v(0.0, 0.0, -1.0),
            t: s(*at),
            front_face: true,
            u: s(0.0),
            v: s(0.0),
            material: tested.borrow().len(),
        })
    };
    let hit = list.hit(&r, (s(0.0), s(6.0)), &probe).unwrap();
    assert_eq!(f(hit.t), 3.0);
    assert_eq!(hit.material, 4);
    assert_eq!(*tested.borrow(), vec![6.0, 5.0, 3.0, 3.0, 3.0]);
    assert!(list.hit(&r, (s(0.0), s(2.0)), &probe).is_none());
    list.clear();
    assert!(list.hit(&r, (s(0.0), s(6.0)), &probe).is_none());
}

#[test]
fn list_box_is_the_union() {
    let mut list: HittableList<Option<AABB>> = HittableList::new();
    let time = (s(0.0), s(1.0));
    let bound = |b: &Option<AABB>, _time: (Scalar, Scalar)| -> Option<AABB> { *b };
    assert_eq!(list.bounding_box(time, &bound), None);
    list.add(Some(AABB::new(v(0.0, 0.0, 0.0), v(1.0, 1.0, 1.0))));
    assert_eq!(list.bounding_box(time, &bound), Some(AABB::new(v(0.0, 0.0, 0.0), v(1.0, 1.0, 1.0))));
    list.add(Some(AABB::new(v(-2.0, 0.5, 0.0), v(0.0, 3.0, 0.5))));
    list.add(Some(AABB::new(v(0.0, 0.0, -1.0), v(0.5, 0.5, 7.0))));
    assert_eq!(list.bounding_box(time, &bound), Some(AABB::new(v(-2.0, 0.0, -1.0), v(1.0, 3.0, 7.0))));
    list.add(None);
    assert_eq!(list.bounding_box(time, &bound), None);
}
