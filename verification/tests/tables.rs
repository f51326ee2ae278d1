use std::sync::Arc;

use ray_tracing_in_one_weekend::perlin::POINT_COUNT;
use ray_tracing_in_one_weekend::scalar::ONE_BITS;
use ray_tracing_in_one_weekend::{
    CheckerTexture, Cube, DiffuseLight, ImageTexture, Material, Perlin, Plane, PlaneOrientation, Scalar, SolidColor, Texture,
    Vec3,
};

fn num(x: f64) -> Scalar {
    Scalar::from_bits(x.to_bits())
}

fn val(s: Scalar) -> f64 {
    f64::from_bits(s.to_bits())
}

fn vec3(x: f64, y: f64, z: f64) -> Vec3 {
    Vec3::new(num(x), num(y), num(z))
}

fn triple(v: Vec3) -> (f64, f64, f64) {
    (val(v.x()), val(v.y()), val(v.z()))
}

fn is_permutation(p: &Vec<usize>) -> bool {
    let mut seen = vec![false; POINT_COUNT];
    for &v in p.iter() {
        if v >= POINT_COUNT || seen[v] {
            return false;
        }
        seen[v] = true;
    }
    p.len() == POINT_COUNT
}

#[test]
fn generated_table_is_a_permutation() {
    for _ in 0..20 {
        let p = Perlin::perlin_generate_perm();
        assert_eq!(p.len(), 256);
        assert!(is_permutation(&p));
    }
}

#[test]
fn generated_table_keeps_its_last_entry() {
    for _ in 0..20 {
        let p = Perlin::perlin_generate_perm();
        assert_eq!(p[255], 255);
    }
}

#[test]
fn generated_table_is_shuffled() {
    let identity: Vec<usize> = (0..256).collect();
    let tables: Vec<Vec<usize>> = (0..4).map(|_| Perlin::perlin_generate_perm()).collect();
    assert!(tables.iter().any(|p| *p != identity));
    assert!(tables.iter().any(|p| *p != tables[0]));
}

#[test]
fn permute_rearranges_and_keeps_the_last() {
    let before: Vec<usize> = vec![10, 20, 30, 40, 50, 60, 70, 80, 90, 100];
    let mut moved = false;
    for _ in 0..50 {
        let mut p = before.clone();
        Perlin::permute(&mut p);
        assert_eq!(p.len(), before.len());
        assert_eq!(p[9], 100);
        moved = moved || p != before;
        let mut sorted = p.clone();
        sorted.sort();
        assert_eq!(sorted, before);
    }
    assert!(moved);
}

#[test]
fn permute_of_one_or_two_entries_changes_nothing() {
    let mut one = vec![7usize];
    Perlin::permute(&mut one);
    assert_eq!(one, vec![7]);
    let mut two = vec![7usize, 8];
    Perlin::permute(&mut two);
    assert_eq!(two, vec![7, 8]);
}

#[test]
fn permute_keeps_repeated_entries() {
    let mut p = vec![5usize, 5, 1, 5, 2];
    Perlin::permute(&mut p);
    let mut sorted = p.clone();
    sorted.sort();
    assert_eq!(sorted, vec![1, 2, 5, 5, 5]);
}

fn gradients() -> Vec<Vec3> {
    (0..POINT_COUNT).map(|i| vec3(i as f64, 0.5, -1.0)).collect()
}

#[test]
fn perlin_needs_as_many_gradients_as_points() {
    assert!(Perlin::new(gradients()).is_some());
    assert!(Perlin::new(Vec::new()).is_none());
    let mut short = gradients();
    short.pop();
    assert!(Perlin::new(short).is_none());
    let mut long = gradients();
    long.push(vec3(0.0, 0.0, 0.0));
    assert!(Perlin::new(long).is_none());
}

#[test]
fn gradient_is_one_of_those_given() {
    let perlin = Perlin::new(gradients()).unwrap();
    for (i, j, k) in [(0usize, 0usize, 0usize), (1, 2, 3), (255, 255, 255), (17, 400, 90000), (usize::MAX, 0, 7)] {
        let g = triple(perlin.gradient(i, j, k));
        assert!(g.0 >= 0.0 && g.0 < 256.0 && g.0.fract() == 0.0);
        assert_eq!((g.1, g.2), (0.5, -1.0));
    }
}

#[test]
fn gradient_repeats_with_the_table_length() {
    let perlin = Perlin::new(gradients()).unwrap();
    for (i, j, k) in [(0usize, 0usize, 0usize), (1, 2, 3), (200, 100, 255)] {
        let g = triple(perlin.gradient(i, j, k));
        assert_eq!(triple(perlin.gradient(i + 256, j, k)), g);
        assert_eq!(triple(perlin.gradient(i, j + 512, k)), g);
        assert_eq!(triple(perlin.gradient(i, j, k + 256 * 1000)), g);
    }
}

#[test]
fn gradient_combines_the_three_tables_bit_by_bit() {
    // with x fixed, y and z run through their tables: each gradient occurs
    // once in every row and once in every column
    let perlin = Perlin::new(gradients()).unwrap();
    for fixed in [0usize, 77] {
        let mut seen = vec![false; POINT_COUNT];
        for j in 0..POINT_COUNT {
            let g = val(perlin.gradient(3, j, fixed).x()) as usize;
            assert!(!seen[g]);
            seen[g] = true;
        }
        let mut seen = vec![false; POINT_COUNT];
        for i in 0..POINT_COUNT {
            let g = val(perlin.gradient(i, fixed, 5).x()) as usize;
            assert!(!seen[g]);
            seen[g] = true;
        }
    }
    // the last entry of each table stays in place, so the far corner of the
    // lattice has the combination of 255 with itself three times
    assert_eq!(val(perlin.gradient(255, 255, 255).x()), (255 ^ 255 ^ 255) as f64);
}

#[test]
fn cell_holds_the_gradients_of_its_eight_corners() {
    let perlin = Perlin::new(gradients()).unwrap();
    for (i, j, k) in [(0usize, 0usize, 0usize), (3, 250, 77), (255, 255, 255), (1000, 2000, 3000)] {
        let corners = perlin.cell(i, j, k);
        assert_eq!(corners.len(), 8);
        for di in 0..2 {
            for dj in 0..2 {
                for dk in 0..2 {
                    assert_eq!(
                        triple(corners[4 * di + 2 * dj + dk]),
                        triple(perlin.gradient(i + di, j + dj, k + dk))
                    );
                }
            }
        }
    }
}

#[test]
fn cell_at_the_end_of_the_lattice_wraps_to_its_start() {
    let perlin = Perlin::new(gradients()).unwrap();
    let corners = perlin.cell(usize::MAX, 255, 511);
    assert_eq!(triple(corners[0]), triple(perlin.gradient(255, 255, 255)));
    assert_eq!(triple(corners[7]), triple(perlin.gradient(0, 0, 0)));
    assert_eq!(triple(corners[4]), triple(perlin.gradient(0, 255, 255)));
    assert_eq!(triple(corners[1]), triple(perlin.gradient(255, 255, 0)));
}

#[test]
fn solid_color_is_the_same_everywhere() {
    let t = SolidColor::new(vec3(0.1, 0.2, 0.5));
    assert_eq!(triple(t.value(num(0.0), num(0.0), vec3(0.0, 0.0, 0.0))), (0.1, 0.2, 0.5));
    assert_eq!(triple(t.value(num(0.7), num(0.3), vec3(9.0, -4.0, 1e9))), (0.1, 0.2, 0.5));
    let u = SolidColor::from_rbg(num(0.9), num(0.8), num(0.7));
    assert_eq!(triple(u.value(num(0.5), num(0.5), vec3(1.0, 1.0, 1.0))), (0.9, 0.8, 0.7));
    assert_eq!(triple(u.color_value), (0.9, 0.8, 0.7));
}

#[test]
fn checker_picks_odd_for_a_negative_product() {
    let checker = CheckerTexture::new(
        SolidColor::from_rbg(num(0.2), num(0.3), num(0.1)),
        SolidColor::from_rbg(num(0.9), num(0.9), num(0.9)),
    );
    let at = vec3(1.0, 2.0, 3.0);
    assert_eq!(triple(checker.pick(num(-0.25), num(0.0), num(0.0), at)), (0.2, 0.3, 0.1));
    assert_eq!(triple(checker.pick(num(-5e-324), num(0.0), num(0.0), at)), (0.2, 0.3, 0.1));
    assert_eq!(triple(checker.pick(num(0.25), num(0.0), num(0.0), at)), (0.9, 0.9, 0.9));
    assert_eq!(triple(checker.pick(num(0.0), num(0.0), num(0.0), at)), (0.9, 0.9, 0.9));
    assert_eq!(triple(checker.pick(num(-0.0), num(0.0), num(0.0), at)), (0.9, 0.9, 0.9));
    assert_eq!(triple(checker.pick(num(f64::NAN), num(0.0), num(0.0), at)), (0.9, 0.9, 0.9));
    assert_eq!(triple(checker.odd.color_value), (0.2, 0.3, 0.1));
    assert_eq!(triple(checker.even.color_value), (0.9, 0.9, 0.9));
}

fn picture() -> ImageTexture {
    // three columns, two rows
    let data: Vec<u8> = (0..18).map(|b| b as u8 * 10).collect();
    ImageTexture::new(data, 3, 2)
}

#[test]
fn image_texture_new_keeps_what_it_is_given() {
    let t = picture();
    assert_eq!(t.width, 3);
    assert_eq!(t.height, 2);
    assert_eq!(t.data.len(), 18);
    assert_eq!(t.data[17], 170);
}

#[test]
fn texel_reads_three_bytes_at_the_pixel() {
    let t = picture();
    assert_eq!(t.texel(0, 0), Some((0, 10, 20)));
    assert_eq!(t.texel(1, 0), Some((30, 40, 50)));
    assert_eq!(t.texel(2, 0), Some((60, 70, 80)));
    assert_eq!(t.texel(0, 1), Some((90, 100, 110)));
    assert_eq!(t.texel(2, 1), Some((150, 160, 170)));
}

#[test]
fn texel_beyond_the_picture_is_the_last_column_or_row() {
    let t = picture();
    assert_eq!(t.texel(3, 0), Some((60, 70, 80)));
    assert_eq!(t.texel(1000, 1), Some((150, 160, 170)));
    assert_eq!(t.texel(1, 2), Some((120, 130, 140)));
    assert_eq!(t.texel(usize::MAX, usize::MAX), Some((150, 160, 170)));
}

#[test]
fn texel_of_an_empty_or_short_picture_is_none() {
    assert_eq!(ImageTexture::new(vec![1, 2, 3], 0, 1).texel(0, 0), None);
    assert_eq!(ImageTexture::new(vec![1, 2, 3], 1, 0).texel(0, 0), None);
    assert_eq!(ImageTexture::new(Vec::new(), 0, 0).texel(0, 0), None);
    // the data end inside the last pixel
    let short = ImageTexture::new(vec![1, 2, 3, 4, 5], 2, 1);
    assert_eq!(short.texel(0, 0), Some((1, 2, 3)));
    assert_eq!(short.texel(1, 0), None);
    // sizes whose product does not fit a machine word
    let huge = ImageTexture::new(vec![9, 8, 7], u32::MAX, u32::MAX);
    assert_eq!(huge.texel(0, 0), Some((9, 8, 7)));
    assert_eq!(huge.texel(5, 5), None);
    assert_eq!(huge.texel(usize::MAX, usize::MAX), None);
}

fn rect(plane: PlaneOrientation) -> Plane<u8> {
    Plane::new(plane, 9, num(1.0), num(2.0), num(3.0), num(5.0), num(-4.0))
}

#[test]
fn plane_new_keeps_what_it_is_given() {
    let p = rect(PlaneOrientation::ZX);
    assert_eq!(p.mat, 9);
    assert_eq!((val(p.x0), val(p.x1), val(p.y0), val(p.y1), val(p.k)), (1.0, 2.0, 3.0, 5.0, -4.0));
    assert!(matches!(p.plane, PlaneOrientation::ZX));
}

#[test]
fn orientation_axes_follow_the_cycle() {
    assert_eq!(rect(PlaneOrientation::XY).get_orientation_axis(), (2, 0, 1));
    assert_eq!(rect(PlaneOrientation::YZ).get_orientation_axis(), (0, 1, 2));
    assert_eq!(rect(PlaneOrientation::ZX).get_orientation_axis(), (1, 2, 0));
}

#[test]
fn plane_covers_its_rectangle_with_the_edges() {
    let p = rect(PlaneOrientation::XY);
    assert!(p.covers(num(1.5), num(4.0)));
    assert!(p.covers(num(1.0), num(3.0)));
    assert!(p.covers(num(2.0), num(5.0)));
    assert!(!p.covers(num(0.999), num(4.0)));
    assert!(!p.covers(num(2.001), num(4.0)));
    assert!(!p.covers(num(1.5), num(2.999)));
    assert!(!p.covers(num(1.5), num(5.001)));
    // no comparison puts a NaN outside
    assert!(p.covers(num(f64::NAN), num(4.0)));
}

#[test]
fn plane_normal_is_the_unit_vector_across() {
    assert_eq!(ONE_BITS, 1.0f64.to_bits());
    assert_eq!(triple(rect(PlaneOrientation::XY).outward_normal()), (0.0, 0.0, 1.0));
    assert_eq!(triple(rect(PlaneOrientation::YZ).outward_normal()), (1.0, 0.0, 0.0));
    assert_eq!(triple(rect(PlaneOrientation::ZX).outward_normal()), (0.0, 1.0, 0.0));
}

#[test]
fn plane_box_lies_on_the_axes_of_its_orientation() {
    let lo = num(-4.0 - 0.0001);
    let hi = num(-4.0 + 0.0001);
    let b = rect(PlaneOrientation::XY).bounding_box(lo, hi);
    assert_eq!(triple(b.min()), (1.0, 3.0, -4.0001));
    assert_eq!(triple(b.max()), (2.0, 5.0, -3.9999));
    let b = rect(PlaneOrientation::YZ).bounding_box(lo, hi);
    assert_eq!(triple(b.min()), (-4.0001, 1.0, 3.0));
    assert_eq!(triple(b.max()), (-3.9999, 2.0, 5.0));
    let b = rect(PlaneOrientation::ZX).bounding_box(lo, hi);
    assert_eq!(triple(b.min()), (3.0, -4.0001, 1.0));
    assert_eq!(triple(b.max()), (5.0, -3.9999, 2.0));
}

fn side(p: &Plane<Arc<dyn Material>>) -> (u8, f64, f64, f64, f64, f64) {
    let o = match p.plane {
        PlaneOrientation::XY => 0,
        PlaneOrientation::YZ => 1,
        PlaneOrientation::ZX => 2,
    };
    (o, val(p.x0), val(p.x1), val(p.y0), val(p.y1), val(p.k))
}

#[test]
fn cube_has_a_pair_of_sides_for_each_axis() {
    let mat: Arc<dyn Material> = Arc::new(DiffuseLight::from_color(vec3(1.0, 1.0, 1.0)));
    let cube = Cube::new(vec3(1.0, 2.0, 3.0), vec3(4.0, 6.0, 8.0), mat.clone());
    assert_eq!(cube.sides.len(), 6);
    assert_eq!(side(&cube.sides[0]), (0, 1.0, 4.0, 2.0, 6.0, 8.0));
    assert_eq!(side(&cube.sides[1]), (0, 1.0, 4.0, 2.0, 6.0, 3.0));
    assert_eq!(side(&cube.sides[2]), (2, 3.0, 8.0, 1.0, 4.0, 6.0));
    assert_eq!(side(&cube.sides[3]), (2, 3.0, 8.0, 1.0, 4.0, 2.0));
    assert_eq!(side(&cube.sides[4]), (1, 2.0, 6.0, 3.0, 8.0, 4.0));
    assert_eq!(side(&cube.sides[5]), (1, 2.0, 6.0, 3.0, 8.0, 1.0));
    for s in cube.sides.iter() {
        assert!(Arc::ptr_eq(&s.mat, &mat));
    }
}

#[test]
fn cube_box_reaches_from_corner_to_corner() {
    let cube = Cube::new(vec3(1.0, 2.0, 3.0), vec3(4.0, 6.0, 8.0), 0u8);
    let b = cube.bounding_box();
    assert_eq!(triple(b.min()), (1.0, 2.0, 3.0));
    assert_eq!(triple(b.max()), (4.0, 6.0, 8.0));
    assert_eq!(triple(cube.min), (1.0, 2.0, 3.0));
    assert_eq!(triple(cube.max), (4.0, 6.0, 8.0));
}

#[test]
fn cube_sides_lie_on_the_faces_of_its_box() {
    let cube = Cube::new(vec3(1.0, 2.0, 3.0), vec3(4.0, 6.0, 8.0), 0u8);
    let outer = cube.bounding_box();
    for s in cube.sides.iter() {
        let b = s.bounding_box(s.k, s.k);
        let (lo, hi) = (triple(b.min()), triple(b.max()));
        let (olo, ohi) = (triple(outer.min()), triple(outer.max()));
        assert!(lo.0 >= olo.0 && lo.1 >= olo.1 && lo.2 >= olo.2);
        assert!(hi.0 <= ohi.0 && hi.1 <= ohi.1 && hi.2 <= ohi.2);
        let (k_axis, _, _) = s.get_orientation_axis();
        let k = val(s.k);
        assert!(k == val(outer.min().get(k_axis)) || k == val(outer.max().get(k_axis)));
    }
}
