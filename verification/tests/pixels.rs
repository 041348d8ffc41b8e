use raylib::color::{pixel, quantize};
use raylib::file::{header, pixel_line};
use raylib::hittable::Hittables;
use raylib::image::Image;
use raylib::ray::{cast, Cast, Radiance};
use raylib::sphere::Roots;

/// The background gradient for a direction, from white at the bottom to
/// blue at the top.
fn background(direction: [f64; 3]) -> [f64; 3] {
    let length = direction.iter().map(|d| d * d).sum::<f64>().sqrt();
    let t = 0.5 * (direction[1] / length + 1.0);
    [(1.0 - t) + t * 0.5, (1.0 - t) + t * 0.7, (1.0 - t) + t]
}

fn sphere_roots(direction: [f64; 3], center: [f64; 3], radius: f64) -> Option<Roots> {
    let oc = [-center[0], -center[1], -center[2]];
    let a = direction.iter().map(|d| d * d).sum::<f64>();
    let h = direction.iter().zip(oc.iter()).map(|(d, o)| d * o).sum::<f64>();
    let c = oc.iter().map(|o| o * o).sum::<f64>() - radius * radius;
    let discriminant = h * h - a * c;
    let sqrtd = discriminant.sqrt();
    Roots::of_bits(discriminant.to_bits(), ((-h - sqrtd) / a).to_bits(), ((-h + sqrtd) / a).to_bits())
}

/// One sample through the lower left corner of each pixel, as a random
/// source that always draws zero gives it.
fn direction(image: Image, column: i64, row: i64) -> [f64; 3] {
    let u = (column as f64 + 0.0) / (image.width as f64 - 1.0);
    let v = (row as f64 + 0.0) / (image.height as f64 - 1.0);
    let viewport_height = 2.0;
    let viewport_width = 16.0 / 9.0 * viewport_height;
    [-viewport_width / 2.0 + u * viewport_width, -viewport_height / 2.0 + v * viewport_height, -1.0]
}

#[test]
fn single_sample_pixel_is_the_single_computation() {
    let image = Image::with_aspect(16, 16, 9).unwrap();
    assert_eq!(image.height, 9);
    let mut written = header(image.width, image.height);
    let mut expected = format!("P3\n16 9\n255\n").into_bytes();
    let mut lines = 0;
    let mut at = image.first();
    while let Some(p) = at {
        let direction = direction(image, p.column, p.row);
        let mut scene = Hittables::new();
        scene.list.push(sphere_roots(direction, [0.0, 0.0, 5.0], 0.5));
        assert_eq!(cast(50, &scene), Cast::Done(Radiance::Background));
        let sum = background(direction);
        let samples_per_pixel = 1;
        let scale = 1.0 / samples_per_pixel as f64;
        let average = [sum[0] * scale, sum[1] * scale, sum[2] * scale];
        assert_eq!(average, sum);
        written.extend(pixel(average[0].sqrt().to_bits(), average[1].sqrt().to_bits(), average[2].sqrt().to_bits()));
        let levels: Vec<i32> = sum.iter().map(|c| (256.0 * c.sqrt().min(0.999).max(0.0)) as i32).collect();
        expected.extend(format!("{} {} {}\n", levels[0], levels[1], levels[2]).into_bytes());
        lines += 1;
        at = image.next(p);
    }
    assert_eq!(lines, 16 * 9);
    assert_eq!(written, expected);
}

#[test]
fn top_of_the_sky_is_bluer_than_the_bottom() {
    let image = Image { width: 4, height: 3 };
    let top = background(direction(image, 0, 2));
    let bottom = background(direction(image, 0, 0));
    assert!(quantize(top[0].to_bits()) < quantize(bottom[0].to_bits()));
    assert_eq!(quantize(top[2].to_bits()), 255);
    assert_eq!(quantize(bottom[2].to_bits()), 255);
}

#[test]
fn pixel_is_the_line_of_its_levels() {
    let channels = [0.1f64, 0.6, 0.95];
    let levels: Vec<i32> = channels.iter().map(|c| quantize(c.to_bits()) as i32).collect();
    assert_eq!(levels, vec![25, 153, 243]);
    assert_eq!(
        pixel(channels[0].to_bits(), channels[1].to_bits(), channels[2].to_bits()),
        pixel_line(25, 153, 243)
    );
}
