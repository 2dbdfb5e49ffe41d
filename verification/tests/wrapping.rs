//! End-to-end exercises of the wrapping pipeline: the floating-point
//! tangent arithmetic and the hull sweep run here (as they do in the
//! host), every decision on their results is the library's.

use circle_wrap::circle::{Circle, Tangent, TangentPoint};
use circle_wrap::collector::collect_tangent_points;
use circle_wrap::enclosure::filter_non_enclosed;
use circle_wrap::hull::resolve_hull;
use circle_wrap::pairs::all_pairs;
use circle_wrap::tangent_slots::assemble_tangents;
use circle_wrap::unordered::UnorderedEq;

use geo::{ConvexHull, MultiPoint, Point};

fn circle(id: i32, x: f32, y: f32, radius: f32) -> Circle {
    Circle {
        id,
        x: x.to_bits(),
        y: y.to_bits(),
        radius: radius.to_bits(),
    }
}

/// The host's bitangent arithmetic: computes the two tangent families of
/// the pair and hands them to the library's slot assembly.
fn common_tangents(a: &Circle, b: &Circle) -> Vec<Option<Tangent>> {
    let (ax, ay, ar) = (
        f32::from_bits(a.x),
        f32::from_bits(a.y),
        f32::from_bits(a.radius),
    );
    let (bx, by, br) = (
        f32::from_bits(b.x),
        f32::from_bits(b.y),
        f32::from_bits(b.radius),
    );

    let distance = ((bx - ax) * (bx - ax) + (by - ay) * (by - ay)).sqrt();
    let vx = (bx - ax) / distance;
    let vy = (by - ay) / distance;

    let mut families: [Option<(Tangent, Tangent)>; 2] = [None, None];
    for (k, sign_1) in [-1.0f32, 1.0f32].iter().enumerate() {
        let c = (ar - sign_1 * br) / distance;
        if c * c > 1.0 {
            continue;
        }
        let h = (0.0f32).max(1.0f32 - c * c).sqrt();

        let mut pair: Vec<Tangent> = Vec::new();
        for sign_2 in [-1.0f32, 1.0f32] {
            let nx = vx * c - sign_2 * h * vy;
            let ny = vy * c + sign_2 * h * vx;
            pair.push(Tangent(
                TangentPoint {
                    circle_id: a.id,
                    x: (ax + ar * nx).to_bits(),
                    y: (ay + ar * ny).to_bits(),
                },
                TangentPoint {
                    circle_id: b.id,
                    x: (bx + sign_1 * br * nx).to_bits(),
                    y: (by + sign_1 * br * ny).to_bits(),
                },
            ));
        }
        families[k] = Some((pair[0], pair[1]));
    }

    assemble_tangents(families[0], families[1])
}

fn populated(slots: &[Option<Tangent>]) -> usize {
    slots.iter().filter(|s| s.is_some()).count()
}

#[test]
fn no_tangents_for_nested_circles() {
    let circle_a = circle(0, 0.0, 0.0, 1.0);
    let circle_b = circle(1, 0.0, 0.0, 2.0);

    assert!(common_tangents(&circle_a, &circle_b).unordered_eq(&vec![None, None, None, None]));
}

#[test]
fn two_tangents_for_intersecting_circles() {
    let circle_a = circle(0, 0.0, 0.0, 1.0);
    let circle_b = circle(1, 1.5, 0.0, 1.0);

    let expected = vec![
        Some(Tangent(
            TangentPoint {
                circle_id: 0,
                x: (0.0f32).to_bits(),
                y: (-1.0f32).to_bits(),
            },
            TangentPoint {
                circle_id: 1,
                x: (1.5f32).to_bits(),
                y: (-1.0f32).to_bits(),
            },
        )),
        Some(Tangent(
            TangentPoint {
                circle_id: 0,
                x: (0.0f32).to_bits(),
                y: (1.0f32).to_bits(),
            },
            TangentPoint {
                circle_id: 1,
                x: (1.5f32).to_bits(),
                y: (1.0f32).to_bits(),
            },
        )),
        None,
        None,
    ];
    assert!(common_tangents(&circle_a, &circle_b).unordered_eq(&expected));
}

#[test]
fn four_tangents_for_separated_circles() {
    let circle_a = circle(0, 0.0, 0.0, 1.0);
    let circle_b = circle(1, 5.0, 0.0, 2.0);

    assert_eq!(populated(&common_tangents(&circle_a, &circle_b)), 4);
}

#[test]
fn internal_tangency_keeps_one_family() {
    // Distance equals the radius difference: the external family survives
    // (its two coincident tangents), the internal family does not.
    let circle_a = circle(0, 0.0, 0.0, 1.0);
    let circle_b = circle(1, 2.0, 0.0, 3.0);
    assert_eq!(populated(&common_tangents(&circle_a, &circle_b)), 2);
}

#[test]
fn strictly_nested_circles_have_no_tangents() {
    let inner = circle(0, 0.5, 0.0, 1.0);
    let outer = circle(1, 0.0, 0.0, 3.0);
    assert_eq!(populated(&common_tangents(&inner, &outer)), 0);
}

#[test]
fn tangent_symmetry_swaps_endpoints() {
    let circle_a = circle(0, 0.0, 0.0, 1.0);
    let circle_b = circle(1, 5.0, 1.0, 2.0);

    let segment = |t: &Option<Tangent>| t.map(|t| ((t.0.x, t.0.y), (t.1.x, t.1.y)));
    let swapped = |t: &Option<Tangent>| t.map(|t| ((t.1.x, t.1.y), (t.0.x, t.0.y)));

    let ab: Vec<_> = common_tangents(&circle_a, &circle_b)
        .iter()
        .map(segment)
        .collect();
    let ba: Vec<_> = common_tangents(&circle_b, &circle_a)
        .iter()
        .map(swapped)
        .collect();
    assert!(ab.unordered_eq(&ba));
}

#[test]
fn end_to_end_hull_wraps_three_circles() {
    let circles = vec![
        circle(0, 230.0, 280.0, 40.0),
        circle(1, 120.0, 120.0, 30.0),
        circle(2, 520.0, 120.0, 50.0),
    ];

    let enclosed: Vec<Vec<bool>> = circles
        .iter()
        .map(|a| {
            circles
                .iter()
                .map(|b| {
                    let dx = f32::from_bits(a.x) - f32::from_bits(b.x);
                    let dy = f32::from_bits(a.y) - f32::from_bits(b.y);
                    let distance = (dx * dx + dy * dy).sqrt();
                    distance + f32::from_bits(a.radius) <= f32::from_bits(b.radius)
                })
                .collect()
        })
        .collect();

    let kept = filter_non_enclosed(&circles, &enclosed);
    assert_eq!(kept.len(), 3);

    let mut quads = Vec::new();
    for (i, j) in all_pairs(kept.len()) {
        quads.push(common_tangents(&kept[i], &kept[j]));
    }

    let (points, registry) = collect_tangent_points(&quads);

    let float_points: Vec<Point<f32>> = points
        .iter()
        .map(|c| Point::new(f32::from_bits(c.x), f32::from_bits(c.y)))
        .collect();
    let hull = geo::Polygon::exterior(&MultiPoint::from(float_points).convex_hull()).clone();
    let vertices: Vec<circle_wrap::circle::Coord> = hull
        .into_iter()
        .map(|coord| circle_wrap::circle::Coord {
            x: coord.x.to_bits(),
            y: coord.y.to_bits(),
        })
        .collect();

    let resolved = resolve_hull(&vertices, &registry).unwrap();
    assert!(resolved.len() > 3);

    for tangent_point in &resolved {
        let x = f32::from_bits(tangent_point.x);
        let y = f32::from_bits(tangent_point.y);
        for c in &circles {
            let dx = x - f32::from_bits(c.x);
            let dy = y - f32::from_bits(c.y);
            let distance = (dx * dx + dy * dy).sqrt();
            let radius = f32::from_bits(c.radius);
            assert!(
                distance >= radius - 1e-3,
                "hull vertex ({x}, {y}) lies inside circle {}",
                c.id
            );
        }
    }
}
