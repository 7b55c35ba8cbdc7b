use raytracing::frame::render;
use raytracing::hits::hittable::{HitRecord, Surface};
use raytracing::materials::diffuse_light::DiffuseLight;
use raytracing::objects::aa_rect::{PlaneCrossing, XYRect};
use raytracing::ray::Ray;
use raytracing::scalar::Scalar;
use raytracing::textures::solid_color::SolidColor;
use raytracing::vec3::{Color, Point3, Vec3};
use raytracing::{ray_color, Shading};

fn s(x: f64) -> Scalar {
    Scalar::from_bits(x.to_bits())
}

fn f(x: Scalar) -> f64 {
    f64::from_bits(x.to_bits())
}

fn v(x: f64, y: f64, z: f64) -> Vec3 {
    Vec3::new(s(x), s(y), s(z))
}

fn blend(emitted: Color, attenuation: Color, incoming: Color) -> Color {
    v(
        f(emitted.x()) + f(attenuation.x()) * f(incoming.x()),
        f(emitted.y()) + f(attenuation.y()) * f(incoming.y()),
        f(emitted.z()) + f(attenuation.z()) * f(incoming.z()),
    )
}

fn record(t: f64) -> HitRecord<usize> {
    HitRecord {
        p: v(0.0, 0.0, t),
        normal: v(0.0, 0.0, -1.0),
        t: s(t),
        front_face: true,
        u: s(0.0),
        v: s(0.0),
        material: 0,
    }
}

fn forward() -> Ray {
    Ray::new(v(0.0, 0.0, 0.0), v(0.0, 0.0, 1.0), s(0.0))
}

#[test]
fn no_depth_is_black() {
    let world = |_r: &Ray, _i: (Scalar, Scalar)| -> Option<HitRecord<usize>> { Some(record(1.0)) };
    let shade = |_r: &Ray, _h: &HitRecord<usize>| -> Shading {
        Shading { emitted: v(5.0, 5.0, 5.0), scattered: Some((forward(), v(1.0, 1.0, 1.0))) }
    };
    let color = ray_color(forward(), &v(0.7, 0.8, 1.0), &world, &shade, &blend, 0);
    assert_eq!(color, v(0.0, 0.0, 0.0));
}

#[test]
fn emitter_returns_its_emission() {
    let world = |_r: &Ray, _i: (Scalar, Scalar)| -> Option<HitRecord<usize>> { Some(record(1.0)) };
    let shade = |_r: &Ray, _h: &HitRecord<usize>| -> Shading {
        Shading { emitted: v(4.0, 3.0, 2.0), scattered: None }
    };
    for depth in [1, 2, 50] {
        let color = ray_color(forward(), &v(0.7, 0.8, 1.0), &world, &shade, &blend, depth);
        assert_eq!(color, v(4.0, 3.0, 2.0));
    }
}

#[test]
fn miss_returns_the_background() {
    let asked = std::cell::RefCell::new(Vec::new());
    let world = |_r: &Ray, interval: (Scalar, Scalar)| -> Option<HitRecord<usize>> {
        asked.borrow_mut().push((f(interval.0), f(interval.1)));
        None
    };
    let shade = |_r: &Ray, _h: &HitRecord<usize>| -> Shading {
        Shading { emitted: v(4.0, 3.0, 2.0), scattered: None }
    };
    let color = ray_color(forward(), &v(0.7, 0.8, 1.0), &world, &shade, &blend, 5);
    assert_eq!(color, v(0.7, 0.8, 1.0));
    assert_eq!(*asked.borrow(), vec![(0.001, f64::INFINITY)]);
}

#[test]
fn scattered_light_is_attenuated_at_every_bounce() {
    let world = |r: &Ray, _i: (Scalar, Scalar)| -> Option<HitRecord<usize>> {
        if f(r.time()) < 3.0 { Some(record(1.0)) } else { None }
    };
    let shade = |r: &Ray, _h: &HitRecord<usize>| -> Shading {
        let next = Ray::new(r.origin(), r.direction(), s(f(r.time()) + 1.0));
        Shading { emitted: v(1.0, 0.0, 0.0), scattered: Some((next, v(0.5, 0.5, 0.5))) }
    };
    let background = v(8.0, 8.0, 8.0);
    assert_eq!(ray_color(forward(), &background, &world, &shade, &blend, 50), v(2.75, 1.0, 1.0));
    assert_eq!(ray_color(forward(), &background, &world, &shade, &blend, 3), v(1.75, 0.0, 0.0));
    assert_eq!(ray_color(forward(), &background, &world, &shade, &blend, 1), v(1.0, 0.0, 0.0));
}

#[test]
fn raster_is_written_from_the_top_row() {
    let pixel = |i: u32, j: u32| -> Color { v(i as f64 / 4.0, j as f64 / 4.0, 2.0) };
    let data = render(3, 2, &pixel);
    assert_eq!(
        data,
        vec![0, 64, 255, 64, 64, 255, 128, 64, 255, 0, 0, 255, 64, 0, 255, 128, 0, 255]
    );
    assert!(render(0, 5, &pixel).is_empty());
    assert!(render(5, 0, &pixel).is_empty());
}

fn plain(texture: &SolidColor, uv: (Scalar, Scalar), p: &Point3) -> Color {
    texture.value(uv, p)
}

#[test]
fn lit_rectangle_shows_where_it_is_seen() {
    let light = DiffuseLight::new(v(4.0, 4.0, 4.0));
    let rect = XYRect::new((s(1.0), s(3.0)), (s(2.0), s(4.0)), s(10.0), 0usize);
    let world = |r: &Ray, interval: (Scalar, Scalar)| -> Option<HitRecord<usize>> {
        let t = (f(rect.k) - f(r.origin().z())) / f(r.direction().z());
        let x = f(r.origin().x()) + t * f(r.direction().x());
        let y = f(r.origin().y()) + t * f(r.direction().y());
        let crossing = PlaneCrossing { t: s(t), a: s(x), b: s(y) };
        let surface = Surface {
            p: v(x, y, f(rect.k)),
            u: s((x - 1.0) / 2.0),
            v: s((y - 2.0) / 2.0),
            direction_dot_normal: r.direction().z(),
        };
        rect.hit(crossing, surface, interval)
    };
    let shade = |r: &Ray, hit: &HitRecord<usize>| -> Shading {
        Shading {
            emitted: light.emitted((hit.u, hit.v), &hit.p, &plain),
            scattered: light.scatter(*r, hit),
        }
    };
    let background = v(0.0, 0.0, 0.0);
    let pixel = |i: u32, j: u32| -> Color {
        let eye = Ray::new(v(i as f64 + 0.5, j as f64 + 0.5, 0.0), v(0.0, 0.0, 1.0), s(0.0));
        let color = ray_color(eye, &background, &world, &shade, &blend, 5);
        v(f(color.x()).sqrt(), f(color.y()).sqrt(), f(color.z()).sqrt())
    };
    let (width, height) = (5u32, 6u32);
    let data = render(width, height, &pixel);
    assert_eq!(data.len(), 90);
    for j in 0..height {
        for i in 0..width {
            let at = 3 * ((height - 1 - j) * width + i) as usize;
            let lit = (1..3).contains(&i) && (2..4).contains(&j);
            let expected = if lit { [255u8; 3] } else { [0u8; 3] };
            assert_eq!(data[at..at + 3], expected, "pixel {} {}", i, j);
        }
    }
}
