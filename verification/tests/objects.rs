use raytracing::hits::constant_medium::{span_inside, ConstantMedium, FreePath};
use raytracing::hits::hittable::{HitRecord, Surface};
use raytracing::hits::rotate::Placed;
use raytracing::hits::rotate::RotateY;
use raytracing::hits::translate::Translate;
use raytracing::objects::aa_rect::{PlaneCrossing, XYRect, XZRect, YZRect};
use raytracing::objects::block::{Block, Side};
use raytracing::objects::moving_sphere::MovingSphere;
use raytracing::objects::sphere::{nearest_root, Contact, Roots, Sphere};
use raytracing::hits::aabb::AABB;
use raytracing::ray::Ray;
use raytracing::scalar::Scalar;
use raytracing::vec3::Vec3;

fn s(x: f64) -> Scalar {
    Scalar::from_bits(x.to_bits())
}

fn f(x: Scalar) -> f64 {
    f64::from_bits(x.to_bits())
}

fn v(x: f64, y: f64, z: f64) -> Vec3 {
    Vec3::new(s(x), s(y), s(z))
}

fn a(vector: Vec3) -> [f64; 3] {
    [f(vector.x()), f(vector.y()), f(vector.z())]
}

fn dot(u: [f64; 3], w: [f64; 3]) -> f64 {
    u[0] * w[0] + u[1] * w[1] + u[2] * w[2]
}

fn roots(center: [f64; 3], radius: f64, r: &Ray) -> Roots {
    let o = a(r.origin());
    let d = a(r.direction());
    let oc = [o[0] - center[0], o[1] - center[1], o[2] - center[2]];
    let aa = dot(d, d);
    let half_b = dot(oc, d);
    let c = dot(oc, oc) - radius * radius;
    let discrim = half_b * half_b - aa * c;
    let sqrtd = discrim.sqrt();
    Roots {
        discriminant: s(discrim),
        near: s((-half_b - sqrtd) / aa),
        far: s((-half_b + sqrtd) / aa),
    }
}

fn contact_on(center: [f64; 3], radius: f64, r: &Ray, t: Scalar) -> Contact {
    let o = a(r.origin());
    let d = a(r.direction());
    let t = f(t);
    let p = [o[0] + t * d[0], o[1] + t * d[1], o[2] + t * d[2]];
    let n = [
        (p[0] - center[0]) / radius,
        (p[1] - center[1]) / radius,
        (p[2] - center[2]) / radius,
    ];
    Contact {
        surface: Surface {
            p: v(p[0], p[1], p[2]),
            u: s(0.0),
            v: s(0.0),
            direction_dot_normal: s(dot(d, n)),
        },
        outward_normal: v(n[0], n[1], n[2]),
    }
}

fn forever() -> (Scalar, Scalar) {
    (s(0.001), s(f64::INFINITY))
}

#[test]
fn sphere_hit_from_outside() {
    let sphere = Sphere::new(v(0.0, 0.0, 0.0), s(0.5), 7usize);
    let r = Ray::new(v(0.0, 0.0, 5.0), v(0.0, 0.0, -1.0), s(0.0));
    let contact = |t: Scalar| -> Contact { contact_on([0.0, 0.0, 0.0], 0.5, &r, t) };
    let hit = sphere.hit(roots([0.0, 0.0, 0.0], 0.5, &r), forever(), &contact).unwrap();
    assert_eq!(f(hit.t), 4.5);
    assert_eq!(hit.p, v(0.0, 0.0, 0.5));
    assert_eq!(hit.normal, v(0.0, 0.0, 1.0));
    assert!(hit.front_face);
    assert_eq!(hit.material, 7);
}

#[test]
fn sphere_hit_from_inside_takes_the_far_root() {
    let sphere = Sphere::new(v(0.0, 0.0, 0.0), s(0.5), 1usize);
    let r = Ray::new(v(0.0, 0.0, 0.0), v(0.0, 0.0, -1.0), s(0.0));
    let contact = |t: Scalar| -> Contact { contact_on([0.0, 0.0, 0.0], 0.5, &r, t) };
    let hit = sphere.hit(roots([0.0, 0.0, 0.0], 0.5, &r), forever(), &contact).unwrap();
    assert_eq!(f(hit.t), 0.5);
    assert_eq!(hit.p, v(0.0, 0.0, -0.5));
    assert_eq!(a(hit.normal), [0.0, 0.0, 1.0]);
    assert!(!hit.front_face);
}

#[test]
fn sphere_is_missed_beside_and_behind() {
    let sphere = Sphere::new(v(0.0, 0.0, 0.0), s(0.5), 1usize);
    let beside = Ray::new(v(2.0, 0.0, 5.0), v(0.0, 0.0, -1.0), s(0.0));
    let contact = |t: Scalar| -> Contact { contact_on([0.0, 0.0, 0.0], 0.5, &beside, t) };
    assert!(sphere.hit(roots([0.0, 0.0, 0.0], 0.5, &beside), forever(), &contact).is_none());
    let away = Ray::new(v(0.0, 0.0, 5.0), v(0.0, 0.0, 1.0), s(0.0));
    let contact = |t: Scalar| -> Contact { contact_on([0.0, 0.0, 0.0], 0.5, &away, t) };
    assert!(sphere.hit(roots([0.0, 0.0, 0.0], 0.5, &away), forever(), &contact).is_none());
    let toward = Ray::new(v(0.0, 0.0, 5.0), v(0.0, 0.0, -1.0), s(0.0));
    let contact = |t: Scalar| -> Contact { contact_on([0.0, 0.0, 0.0], 0.5, &toward, t) };
    let short = (s(0.001), s(4.0));
    assert!(sphere.hit(roots([0.0, 0.0, 0.0], 0.5, &toward), short, &contact).is_none());
}

#[test]
fn nearest_root_prefers_the_near_root() {
    let both = Roots { discriminant: s(1.0), near: s(2.0), far: s(3.0) };
    assert_eq!(nearest_root(both, (s(0.0), s(10.0))), Some(s(2.0)));
    assert_eq!(nearest_root(both, (s(2.5), s(10.0))), Some(s(3.0)));
    assert_eq!(nearest_root(both, (s(1.0), s(2.0))), Some(s(2.0)));
    assert_eq!(nearest_root(both, (s(2.0), s(2.0))), None);
    assert_eq!(nearest_root(both, (s(2.0), s(10.0))), Some(s(3.0)));
    assert_eq!(nearest_root(both, (s(3.0), s(10.0))), None);
    assert_eq!(nearest_root(both, (s(0.0), s(f64::NAN))), None);
    assert_eq!(nearest_root(both, (s(f64::NAN), s(10.0))), None);
    assert_eq!(nearest_root(both, (s(3.5), s(10.0))), None);
    assert_eq!(nearest_root(both, (s(0.0), s(1.0))), None);
    let none = Roots { discriminant: s(-1.0), near: s(2.0), far: s(3.0) };
    assert_eq!(nearest_root(none, (s(0.0), s(10.0))), None);
}

#[test]
fn moving_sphere_hits_where_it_is() {
    let sphere = MovingSphere::new(
        (v(0.0, 0.0, 0.0), v(0.0, 2.0, 0.0)),
        (s(0.0), s(1.0)),
        s(0.5),
        3usize,
    );
    let r = Ray::new(v(0.0, 1.0, 5.0), v(0.0, 0.0, -1.0), s(0.5));
    let center = [0.0, 1.0, 0.0];
    let contact = |t: Scalar| -> Contact { contact_on(center, 0.5, &r, t) };
    let hit = sphere.hit(roots(center, 0.5, &r), forever(), &contact).unwrap();
    assert_eq!(f(hit.t), 4.5);
    assert_eq!(hit.material, 3);
    let box0 = AABB::new(v(-0.5, -0.5, -0.5), v(0.5, 0.5, 0.5));
    let box1 = AABB::new(v(-0.5, 1.5, -0.5), v(0.5, 2.5, 0.5));
    let around = sphere.bounding_box(box0, box1).unwrap();
    assert_eq!(around, AABB::new(v(-0.5, -0.5, -0.5), v(0.5, 2.5, 0.5)));
}

fn surface(p: Vec3, u: f64, w: f64, facing: f64) -> Surface {
    Surface { p, u: s(u), v: s(w), direction_dot_normal: s(facing) }
}

#[test]
fn rectangle_hit_inside_its_bounds() {
    let rect = XYRect::new((s(0.0), s(2.0)), (s(0.0), s(4.0)), s(-1.0), 5usize);
    let crossing = PlaneCrossing { t: s(3.0), a: s(0.5), b: s(1.0) };
    let hit = rect.hit(crossing, surface(v(0.5, 1.0, -1.0), 0.25, 0.25, -1.0), forever()).unwrap();
    assert_eq!(f(hit.t), 3.0);
    assert_eq!(hit.p, v(0.5, 1.0, -1.0));
    assert_eq!(hit.normal, v(0.0, 0.0, 1.0));
    assert!(hit.front_face);
    assert_eq!((f(hit.u), f(hit.v)), (0.25, 0.25));
    assert_eq!(hit.material, 5);
    let behind = rect.hit(crossing, surface(v(0.5, 1.0, -1.0), 0.25, 0.25, 1.0), forever()).unwrap();
    assert_eq!(behind.normal, v(-0.0, -0.0, -1.0));
    assert!(!behind.front_face);
}

#[test]
fn rectangle_is_missed_outside_its_bounds() {
    let rect = XZRect::new((s(0.0), s(2.0)), (s(0.0), s(4.0)), s(1.0), 5usize);
    let any = surface(v(0.0, 0.0, 0.0), 0.0, 0.0, -1.0);
    assert!(rect.hit(PlaneCrossing { t: s(3.0), a: s(2.5), b: s(1.0) }, any, forever()).is_none());
    assert!(rect.hit(PlaneCrossing { t: s(3.0), a: s(1.0), b: s(-0.5) }, any, forever()).is_none());
    assert!(rect.hit(PlaneCrossing { t: s(0.0), a: s(1.0), b: s(1.0) }, any, forever()).is_none());
    assert!(rect.hit(PlaneCrossing { t: s(3.0), a: s(1.0), b: s(1.0) }, any, (s(0.0), s(2.0))).is_none());
    let edge = rect.hit(PlaneCrossing { t: s(3.0), a: s(2.0), b: s(4.0) }, any, forever()).unwrap();
    assert_eq!(edge.normal, v(0.0, 1.0, 0.0));
    let side = YZRect::new((s(0.0), s(2.0)), (s(0.0), s(4.0)), s(1.0), 5usize);
    let seen = side.hit(PlaneCrossing { t: s(3.0), a: s(1.0), b: s(1.0) }, any, forever()).unwrap();
    assert_eq!(seen.normal, v(1.0, 0.0, 0.0));
}

#[test]
fn rectangle_box_is_padded_on_its_axis() {
    let rect = XYRect::new((s(0.0), s(2.0)), (s(1.0), s(4.0)), s(5.0), 0usize);
    assert_eq!(
        rect.bounding_box(s(5.0 - 0.0001), s(5.0 + 0.0001)),
        Some(AABB::new(v(0.0, 1.0, 4.9999), v(2.0, 4.0, 5.0001)))
    );
    let rect = XZRect::new((s(0.0), s(2.0)), (s(1.0), s(4.0)), s(5.0), 0usize);
    assert_eq!(
        rect.bounding_box(s(4.9999), s(5.0001)),
        Some(AABB::new(v(0.0, 4.9999, 1.0), v(2.0, 5.0001, 4.0)))
    );
    let rect = YZRect::new((s(0.0), s(2.0)), (s(1.0), s(4.0)), s(5.0), 0usize);
    assert_eq!(
        rect.bounding_box(s(4.9999), s(5.0001)),
        Some(AABB::new(v(4.9999, 0.0, 1.0), v(5.0001, 2.0, 4.0)))
    );
}

#[test]
fn block_has_six_faces() {
    let block = Block::new(v(0.0, 1.0, 2.0), v(3.0, 4.0, 5.0), 9usize);
    assert_eq!(block.bounding_box(), Some(AABB::new(v(0.0, 1.0, 2.0), v(3.0, 4.0, 5.0))));
    assert_eq!(block.sides.list.len(), 6);
    let at: Vec<(usize, f64)> = block
        .sides
        .list
        .iter()
        .map(|side| match side {
            Side::XY(rect) => (2, f(rect.k)),
            Side::XZ(rect) => (1, f(rect.k)),
            Side::YZ(rect) => (0, f(rect.k)),
        })
        .collect();
    assert_eq!(at, vec![(2, 5.0), (2, 2.0), (1, 4.0), (1, 1.0), (0, 3.0), (0, 0.0)]);
    match &block.sides.list[2] {
        Side::XZ(rect) => {
            assert_eq!(rect.x_boundaries, (s(0.0), s(3.0)));
            assert_eq!(rect.z_boundaries, (s(2.0), s(5.0)));
            assert_eq!(rect.material, 9);
        },
        _ => panic!(),
    }
}

#[test]
fn block_returns_the_nearest_face() {
    let block = Block::new(v(0.0, 0.0, 0.0), v(1.0, 1.0, 1.0), 9usize);
    let r = Ray::new(v(0.5, 0.5, 5.0), v(0.0, 0.0, -1.0), s(0.0));
    let probe = |side: &Side<usize>, ray: &Ray, interval: (Scalar, Scalar)| -> Option<HitRecord<usize>> {
        match side {
            Side::XY(rect) => {
                let t = (f(rect.k) - f(ray.origin().z())) / f(ray.direction().z());
                let crossing = PlaneCrossing { t: s(t), a: s(0.5), b: s(0.5) };
                rect.hit(crossing, surface(v(0.5, 0.5, f(rect.k)), 0.5, 0.5, -1.0), interval)
            },
            _ => None,
        }
    };
    let hit = block.hit(&r, forever(), &probe).unwrap();
    assert_eq!(f(hit.t), 4.0);
    assert_eq!(hit.p, v(0.5, 0.5, 1.0));
}

#[test]
fn medium_span_is_cut_to_the_interval() {
    assert_eq!(span_inside(s(1.0), s(5.0), (s(0.0), s(10.0))), Some((s(1.0), s(5.0))));
    assert_eq!(span_inside(s(1.0), s(5.0), (s(2.0), s(4.0))), Some((s(2.0), s(4.0))));
    assert_eq!(span_inside(s(-3.0), s(5.0), (s(-10.0), s(10.0))), Some((s(0.0), s(5.0))));
    assert_eq!(span_inside(s(1.0), s(5.0), (s(5.0), s(10.0))), None);
    assert_eq!(span_inside(s(1.0), s(5.0), (s(6.0), s(10.0))), None);
    assert_eq!(span_inside(s(3.0), s(3.0), (s(0.0), s(10.0))), None);
    assert_eq!(span_inside(s(f64::NAN), s(3.0), (s(0.0), s(10.0))), None);
    assert_eq!(span_inside(s(1.0), s(f64::NAN), (s(0.0), s(10.0))), None);
}

fn medium_hit(density: f64, draw: f64) -> Option<HitRecord<usize>> {
    let medium = ConstantMedium::new(s(-1.0 / density), 4usize);
    let r = Ray::new(v(0.0, 0.0, -5.0), v(0.0, 0.0, 2.0), s(0.0));
    let boundary = |_ray: &Ray, interval: (Scalar, Scalar)| -> Option<Scalar> {
        [2.0f64, 3.0].into_iter().find(|&t| !(t < f(interval.0) || f(interval.1) < t)).map(s)
    };
    let just_past = |t: Scalar| -> Scalar { s(f(t) + 0.0001) };
    let neg_inv_density = f(medium.neg_inv_density);
    let free_path = |ray: &Ray, span: (Scalar, Scalar)| -> FreePath {
        let length = 2.0f64;
        let hit_distance = neg_inv_density * draw.ln();
        let t = f(span.0) + hit_distance / length;
        FreePath {
            hit_distance: s(hit_distance),
            distance_inside_boundary: s((f(span.1) - f(span.0)) * length),
            t: s(t),
            p: v(0.0, 0.0, f(ray.origin().z()) + t * 2.0),
        }
    };
    medium.hit(&r, (s(0.001), s(f64::INFINITY)), &boundary, &just_past, &free_path)
}

#[test]
fn dense_medium_scatters_at_once() {
    let hit = medium_hit(1e6, 0.5).unwrap();
    assert!(f(hit.t) >= 2.0 && f(hit.t) < 2.000001);
    assert_eq!(hit.normal, v(1.0, 0.0, 0.0));
    assert!(hit.front_face);
    assert_eq!(hit.material, 4);
    assert_eq!((f(hit.u), f(hit.v)), (0.0, 0.0));
}

#[test]
fn thin_medium_lets_the_ray_pass() {
    assert!(medium_hit(1e-6, 0.5).is_none());
}

#[test]
fn scattering_compares_free_path_with_the_way_inside() {
    let path = FreePath {
        hit_distance: s(1.0),
        distance_inside_boundary: s(1.0),
        t: s(3.0),
        p: v(1.0, 2.0, 3.0),
    };
    let medium = ConstantMedium::new(s(-2.0), 8usize);
    let r = Ray::new(v(0.0, 0.0, 0.0), v(1.0, 0.0, 0.0), s(0.0));
    let boundary = |_ray: &Ray, interval: (Scalar, Scalar)| -> Option<Scalar> {
        if f(interval.0) == f64::NEG_INFINITY { Some(s(1.0)) } else { Some(s(9.0)) }
    };
    let just_past = |t: Scalar| -> Scalar { s(f(t) + 0.0001) };
    let at_the_end = |_ray: &Ray, _span: (Scalar, Scalar)| -> FreePath { path };
    let hit = medium.hit(&r, (s(0.0), s(100.0)), &boundary, &just_past, &at_the_end).unwrap();
    assert_eq!(f(hit.t), 3.0);
    assert_eq!(hit.p, v(1.0, 2.0, 3.0));
    let longer = FreePath { hit_distance: s(1.5), ..path };
    let beyond = |_ray: &Ray, _span: (Scalar, Scalar)| -> FreePath { longer };
    assert!(medium.hit(&r, (s(0.0), s(100.0)), &boundary, &just_past, &beyond).is_none());
}

#[test]
fn sphere_hit_at_the_start_of_the_interval_does_not_count() {
    let sphere = Sphere::new(v(0.0, 0.0, 2.0), s(1.0), 1usize);
    let r = Ray::new(v(0.0, 0.0, 0.0), v(0.0, 0.0, 1.0), s(0.0));
    let contact = |t: Scalar| -> Contact { contact_on([0.0, 0.0, 2.0], 1.0, &r, t) };
    let found = roots([0.0, 0.0, 2.0], 1.0, &r);
    assert_eq!((f(found.near), f(found.far)), (1.0, 3.0));
    let hit = sphere.hit(found, (s(1.0), s(f64::INFINITY)), &contact).unwrap();
    assert_eq!(f(hit.t), 3.0);
    assert!(!hit.front_face);
    let hit = sphere.hit(found, (s(0.5), s(1.0)), &contact).unwrap();
    assert_eq!(f(hit.t), 1.0);
}

#[test]
fn rectangle_hit_at_the_start_of_the_interval_does_not_count() {
    let rect = XYRect::new((s(0.0), s(2.0)), (s(0.0), s(4.0)), s(-1.0), 5usize);
    let crossing = PlaneCrossing { t: s(3.0), a: s(0.5), b: s(1.0) };
    let at = surface(v(0.5, 1.0, -1.0), 0.25, 0.25, -1.0);
    assert!(rect.hit(crossing, at, (s(3.0), s(10.0))).is_none());
    assert!(rect.hit(crossing, at, (s(2.0), s(3.0))).is_some());
    assert!(rect.hit(crossing, at, (s(2.0), s(f64::NAN))).is_none());
}

#[test]
fn ray_in_the_plane_of_a_rectangle_misses() {
    let rect = XYRect::new((s(0.0), s(2.0)), (s(0.0), s(4.0)), s(1.0), 5usize);
    let t = (1.0f64 - 0.0) / 0.0;
    let at = surface(v(f64::NAN, 1.0, 1.0), 0.25, 0.25, 0.0);
    let crossing = PlaneCrossing { t: s(t), a: s(1.0 + t * 0.0), b: s(1.0) };
    assert!(f(crossing.a).is_nan());
    assert!(rect.hit(crossing, at, forever()).is_none());
}

fn moved_sphere_hit(r: &Ray, offset: [f64; 3]) -> Option<HitRecord<usize>> {
    let shift = Translate::new(v(offset[0], offset[1], offset[2]));
    let o = a(r.origin());
    let moved_r = Ray::new(
        v(o[0] - offset[0], o[1] - offset[1], o[2] - offset[2]),
        r.direction(),
        r.time(),
    );
    let object = |ray: &Ray, interval: (Scalar, Scalar)| -> Option<HitRecord<usize>> {
        let sphere = Sphere::new(v(0.0, 0.0, 0.0), s(0.5), 2usize);
        let contact = |t: Scalar| -> Contact { contact_on([0.0, 0.0, 0.0], 0.5, ray, t) };
        sphere.hit(roots([0.0, 0.0, 0.0], 0.5, ray), interval, &contact)
    };
    let forward = |hit: &HitRecord<usize>| -> Vec3 {
        let p = a(hit.p);
        v(p[0] + offset[0], p[1] + offset[1], p[2] + offset[2])
    };
    shift.hit(&moved_r, forever(), &object, &forward)
}

#[test]
fn translated_hit_is_put_back() {
    let r = Ray::new(v(0.0, 0.0, 5.0), v(0.0, 0.0, -1.0), s(0.0));
    let hit = moved_sphere_hit(&r, [0.0, 0.0, -3.0]).unwrap();
    assert_eq!(f(hit.t), 7.5);
    assert_eq!(hit.p, v(0.0, 0.0, -2.5));
    assert_eq!(hit.normal, v(0.0, 0.0, 1.0));
    assert!(hit.front_face);
    assert_eq!(hit.material, 2);
    let beside = Ray::new(v(4.0, 0.0, 5.0), v(0.0, 0.0, -1.0), s(0.0));
    assert!(moved_sphere_hit(&beside, [0.0, 0.0, -3.0]).is_none());
}

#[test]
fn translated_hit_from_inside_keeps_its_face() {
    let r = Ray::new(v(0.0, 0.0, -3.0), v(0.0, 0.0, -1.0), s(0.0));
    let hit = moved_sphere_hit(&r, [0.0, 0.0, -3.0]).unwrap();
    assert_eq!(f(hit.t), 0.5);
    assert_eq!(hit.p, v(0.0, 0.0, -3.5));
    assert_eq!(a(hit.normal), [0.0, 0.0, 1.0]);
    assert!(!hit.front_face);
}

#[test]
fn translated_grazing_hit_keeps_its_normal() {
    let shift = Translate::new(v(1.0, 0.0, 0.0));
    let moved_r = Ray::new(v(0.0, 0.0, 0.0), v(1.0, 0.0, 0.0), s(0.0));
    let inner = HitRecord {
        p: v(2.0, 0.0, 0.0),
        normal: v(0.0, 1.0, 0.0),
        t: s(2.0),
        front_face: false,
        u: s(0.25),
        v: s(0.75),
        material: 6usize,
    };
    let object = |_ray: &Ray, _interval: (Scalar, Scalar)| -> Option<HitRecord<usize>> {
        Some(inner.clone())
    };
    let forward = |hit: &HitRecord<usize>| -> Vec3 { v(f(hit.p.x()) + 1.0, 0.0, 0.0) };
    let hit = shift.hit(&moved_r, forever(), &object, &forward).unwrap();
    assert_eq!(hit.p, v(3.0, 0.0, 0.0));
    assert_eq!(hit.normal, v(0.0, 1.0, 0.0));
    assert!(!hit.front_face);
    assert_eq!((f(hit.t), f(hit.u), f(hit.v), hit.material), (2.0, 0.25, 0.75, 6));
}

#[test]
fn rotated_hit_keeps_its_normal_against_the_ray() {
    let radians = 180.0f64 * std::f64::consts::PI / 180.0;
    let (sin_theta, cos_theta) = (radians.sin(), radians.cos());
    let rect = XYRect::new((s(-1.0), s(1.0)), (s(-1.0), s(1.0)), s(2.0), 3usize);
    let mut corners = [v(0.0, 0.0, 0.0); 8];
    let (low, high) = ([-1.0, -1.0, 1.9999], [1.0, 1.0, 2.0001]);
    for i in 0..2 {
        for j in 0..2 {
            for k in 0..2 {
                let x = if i == 1 { high[0] } else { low[0] };
                let y = if j == 1 { high[1] } else { low[1] };
                let z = if k == 1 { high[2] } else { low[2] };
                corners[4 * i + 2 * j + k] =
                    v(cos_theta * x + sin_theta * z, y, -sin_theta * x + cos_theta * z);
            }
        }
    }
    let rotation = RotateY::new(s(sin_theta), s(cos_theta), &corners);
    let around = rotation.bounding_box().unwrap();
    assert!((f(around.min().z()) + 2.0001).abs() < 1e-9);
    assert!((f(around.max().z()) + 1.9999).abs() < 1e-9);

    let r = Ray::new(v(0.0, 0.0, 0.0), v(0.0, 0.0, -1.0), s(0.0));
    let (o, d) = (a(r.origin()), a(r.direction()));
    let rotated_r = Ray::new(
        v(cos_theta * o[0] - sin_theta * o[2], o[1], sin_theta * o[0] + cos_theta * o[2]),
        v(cos_theta * d[0] - sin_theta * d[2], d[1], sin_theta * d[0] + cos_theta * d[2]),
        s(0.0),
    );
    let object = |ray: &Ray, interval: (Scalar, Scalar)| -> Option<HitRecord<usize>> {
        let (o, d) = (a(ray.origin()), a(ray.direction()));
        let t = (2.0 - o[2]) / d[2];
        let (x, y) = (o[0] + t * d[0], o[1] + t * d[1]);
        let crossing = PlaneCrossing { t: s(t), a: s(x), b: s(y) };
        let at = surface(v(x, y, 2.0), (x + 1.0) / 2.0, (y + 1.0) / 2.0, d[2]);
        rect.hit(crossing, at, interval)
    };
    let place = |hit: &HitRecord<usize>| -> Placed {
        let (p, n) = (a(hit.p), a(hit.normal));
        Placed {
            p: v(cos_theta * p[0] + sin_theta * p[2], p[1], -sin_theta * p[0] + cos_theta * p[2]),
            normal: v(cos_theta * n[0] + sin_theta * n[2], n[1], -sin_theta * n[0] + cos_theta * n[2]),
        }
    };
    let hit = rotation.hit(&rotated_r, forever(), &object, &place).unwrap();
    assert_eq!(f(hit.t), 2.0);
    let (p, n) = (a(hit.p), a(hit.normal));
    assert!(p[0].abs() < 1e-9 && p[1].abs() < 1e-9 && (p[2] + 2.0).abs() < 1e-9);
    assert!(n[0].abs() < 1e-9 && n[1].abs() < 1e-9 && (n[2] - 1.0).abs() < 1e-9);
    assert!(dot(d, n) <= 0.0);
    assert!(!hit.front_face);
    assert_eq!(hit.material, 3);
}

#[test]
fn face_normal_is_turned_against_the_ray() {
    let mut record = HitRecord {
        p: v(0.0, 0.0, 0.0),
        normal: v(0.0, 0.0, 0.0),
        t: s(1.0),
        front_face: false,
        u: s(0.0),
        v: s(0.0),
        material: 0usize,
    };
    record.set_face_normal(s(-0.5), v(0.0, 1.0, 0.0));
    assert!(record.front_face);
    assert_eq!(record.normal, v(0.0, 1.0, 0.0));
    record.set_face_normal(s(0.5), v(0.0, 1.0, 0.0));
    assert!(!record.front_face);
    assert_eq!(record.normal, v(-0.0, -1.0, -0.0));
    record.set_face_normal(s(0.0), v(0.0, 1.0, 0.0));
    assert!(!record.front_face);
}
