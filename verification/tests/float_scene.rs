use merge_sphere::command::Color;
use merge_sphere::reduce::{merge_all, reduce};

type Circle = (f32, f32, f32);

const GREEN: Color = Color { red: 0, green: 255, blue: 0 };
const RED: Color = Color { red: 255, green: 0, blue: 0 };

/// The smallest circle that covers both circles, as an application of the
/// library computes it in single precision.
fn cover(
    (mut x0, mut y0, mut radius0): Circle,
    (mut x1, mut y1, mut radius1): Circle,
) -> Circle {
    if radius0 > radius1 {
        std::mem::swap(&mut x0, &mut x1);
        std::mem::swap(&mut y0, &mut y1);
        std::mem::swap(&mut radius0, &mut radius1);
    }
    let (dx, dy) = (x1 - x0, y1 - y0);
    let len_d = (dx * dx + dy * dy).sqrt();
    if len_d + radius0 <= radius1 {
        return (x1, y1, radius1);
    }
    let radius = (len_d + radius0 + radius1) / 2.;
    let (d_unit_x, d_unit_y) = (dx / len_d, dy / len_d);
    (
        x0 + d_unit_x * (radius - radius0),
        y0 + d_unit_y * (radius - radius0),
        radius,
    )
}

fn distance(a: Circle, b: Circle) -> f32 {
    ((a.0 - b.0) * (a.0 - b.0) + (a.1 - b.1) * (a.1 - b.1)).sqrt()
}

fn covers(outer: Circle, inner: Circle) -> bool {
    distance(outer, inner) + inner.2 <= outer.2 + 1e-2
}

fn close(a: Circle, b: Circle) -> bool {
    (a.0 - b.0).abs() <= 1e-2 && (a.1 - b.1).abs() <= 1e-2 && (a.2 - b.2).abs() <= 1e-2
}

const SCENE: [Circle; 3] = [(150., 150., 100.), (350., 130., 30.), (120., 330., 80.)];

#[test]
fn circles_on_a_line_merge_to_the_circle_through_their_far_edges() {
    let merged = merge_all(&[(0., 0., 10.), (30., 0., 5.), (0., 0., 1.)], cover);
    assert_eq!(merged[0].first, (12.5, 0., 22.5));
    assert_eq!(merged[2].first, (12.5, 0., 22.5));
}

#[test]
fn concentric_circles_merge_to_the_larger_one() {
    let larger = (5., 5., 10.);
    let merged = merge_all(&[larger, (5., 5., 3.), (5., 5., 1.)], cover);
    assert_eq!(merged[0].first, larger);
    assert_eq!(merged[2].first, larger);
    assert_eq!(merged[3].first, (5., 5., 3.));
    for m in merged {
        assert_eq!(m.second, larger);
        assert!(!m.first.0.is_nan() && !m.first.1.is_nan() && !m.first.2.is_nan());
    }
}

#[test]
fn a_circle_inside_another_leaves_it_unchanged() {
    let outer = (0., 0., 10.);
    let merged = merge_all(&[outer, (3., 0., 2.), (-4., 3., 5.)], cover);
    for n in [0, 1, 2, 4] {
        assert_eq!(merged[n].first, outer);
        assert_eq!(merged[n].second, outer);
    }
}

#[test]
fn first_merge_covers_its_two_circles_and_second_merge_all_three() {
    let merged = merge_all(&SCENE, cover);
    let table = [(0, 1, 2), (0, 2, 1), (1, 0, 2), (1, 2, 0), (2, 0, 1), (2, 1, 0)];
    for (m, (first, second, last)) in merged.iter().zip(table) {
        assert!(covers(m.first, SCENE[first]));
        assert!(covers(m.first, SCENE[second]));
        assert!(!covers(m.first, SCENE[last]));
        for circle in SCENE {
            assert!(covers(m.second, circle));
        }
    }
}

#[test]
fn swapping_the_first_two_circles_gives_the_same_cover() {
    let merged = merge_all(&SCENE, cover);
    for (n, swapped) in [(0, 2), (1, 4), (3, 5)] {
        assert!(close(merged[n].first, merged[swapped].first));
        assert!(close(merged[n].second, merged[swapped].second));
    }
}

#[test]
fn scene_reduces_to_the_covers_of_its_pairs() {
    let commands = reduce(&SCENE, cover, true, false);
    assert_eq!(commands.len(), 6);
    let expected = [
        (215.1737, 143.48264, 165.49876),
        (136.64398, 230.13606, 181.24144),
        (215.1737, 143.48264, 165.49876),
        (216.13486, 246.40447, 207.3975),
        (136.64398, 230.13606, 181.24144),
        (216.13486, 246.40447, 207.3975),
    ];
    for n in 0..6 {
        assert!(close(commands[n].circle, expected[n]));
    }
    assert!(commands.iter().all(|c| c.color == GREEN));
}

#[test]
fn scene_reduces_to_covers_of_all_three_circles() {
    let commands = reduce(&SCENE, cover, false, true);
    assert_eq!(commands.len(), 6);
    let expected = [
        (187.01708, 198.66277, 227.44747),
        (174.86601, 212.19702, 223.46385),
        (187.01708, 198.66277, 227.44747),
        (213.44464, 242.48294, 212.1531),
        (174.86601, 212.19702, 223.46385),
        (213.44464, 242.48294, 212.1531),
    ];
    for n in 0..6 {
        assert!(close(commands[n].circle, expected[n]));
        assert_eq!(commands[n].color, RED);
    }
    let both = reduce(&SCENE, cover, true, true);
    for n in 0..6 {
        assert_eq!(both[2 * n + 1], commands[n]);
        assert_eq!(both[2 * n + 1].circle, cover(both[2 * n].circle, SCENE[[2, 1, 2, 0, 1, 0][n]]));
    }
}

#[test]
fn float_reduction_is_repeatable_bit_for_bit() {
    let once = reduce(&SCENE, cover, true, true);
    let again = reduce(&SCENE, cover, true, true);
    assert_eq!(once.len(), 12);
    for (a, b) in once.iter().zip(&again) {
        assert_eq!(a.circle.0.to_bits(), b.circle.0.to_bits());
        assert_eq!(a.circle.1.to_bits(), b.circle.1.to_bits());
        assert_eq!(a.circle.2.to_bits(), b.circle.2.to_bits());
        assert_eq!(a.color, b.color);
    }
}
