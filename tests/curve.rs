use bezier::bezier_curve::BezierCurve;
use bezier::ratio::Ratio;
use bezier::vector2::Vector2;

fn arch() -> BezierCurve {
    BezierCurve::new(Vector2::new(0, 0), Vector2::new(0, 1), Vector2::new(1, 1), Vector2::new(1, 0))
}

fn wavy() -> BezierCurve {
    BezierCurve::new(
        Vector2::new(-3, 2),
        Vector2::from_fraction(5, -1, 2),
        Vector2::new(7, 9),
        Vector2::from_fraction(-4, 6, 3),
    )
}

#[test]
fn lerp_halfway() {
    let p = Vector2::lerp(Vector2::new(0, 0), Vector2::new(10, 10), Ratio::new(1, 2));
    assert_eq!((p.x, p.y, p.w), (10, 10, 2));
    assert!(p.same_point(&Vector2::new(5, 5)));
    assert!(!p.same_point(&Vector2::new(5, 6)));
}

#[test]
fn lerp_at_ends() {
    let a = Vector2::from_fraction(3, -7, 2);
    let b = Vector2::new(-4, 11);
    assert!(Vector2::lerp(a, b, Ratio::new(0, 1)).same_point(&a));
    assert!(Vector2::lerp(a, b, Ratio::new(0, 5)).same_point(&a));
    assert!(Vector2::lerp(a, b, Ratio::new(1, 1)).same_point(&b));
    assert!(Vector2::lerp(a, b, Ratio::new(3, 3)).same_point(&b));
}

#[test]
fn lerp_extrapolates() {
    let p = Vector2::lerp(Vector2::new(0, 0), Vector2::new(10, 10), Ratio::new(2, 1));
    assert!(p.same_point(&Vector2::new(20, 20)));
    let q = Vector2::lerp(Vector2::new(2, 4), Vector2::new(6, 8), Ratio::new(-1, 2));
    assert!(q.same_point(&Vector2::new(0, 2)));
}

#[test]
fn evaluate_midpoint() {
    let p = arch().evaluate(Ratio::new(1, 2));
    assert_eq!((p.x, p.y, p.w), (4, 6, 8));
    assert!(p.same_point(&Vector2::from_fraction(2, 3, 4)));
}

#[test]
fn evaluate_at_ends() {
    let c = wavy();
    assert!(c.evaluate(Ratio::new(0, 1)).same_point(&c.p0));
    assert!(c.evaluate(Ratio::new(0, 7)).same_point(&c.p0));
    assert!(c.evaluate(Ratio::new(1, 1)).same_point(&c.p3));
    assert!(c.evaluate(Ratio::new(4, 4)).same_point(&c.p3));
}

#[test]
fn evaluate_quarter() {
    let p = arch().evaluate(Ratio::new(1, 4));
    assert!(p.same_point(&Vector2::from_fraction(10, 36, 64)));
}

#[test]
fn evaluate_extrapolates() {
    // u = 2, t = -1: 8·p0 - 12·p1 + 6·p2 - p3
    let p = arch().evaluate(Ratio::new(-1, 1));
    assert!(p.same_point(&Vector2::new(5, -6)));
}

#[test]
fn split_midpoint() {
    let c = arch();
    let (first, second) = c.split_at(Ratio::new(1, 2));
    let mid = c.evaluate(Ratio::new(1, 2));
    assert!(first.p3.same_point(&second.p0));
    assert!(first.p3.same_point(&mid));
    assert!(second.p0.same_point(&Vector2::from_fraction(2, 3, 4)));
    assert!(first.p0.same_point(&c.p0));
    assert!(second.p3.same_point(&c.p3));
}

#[test]
fn split_point_is_curve_point() {
    let c = wavy();
    let t = Ratio::new(1, 3);
    let (first, _second) = c.split_at(t);
    assert!(c.evaluate(t).same_point(&first.p3));
}

#[test]
fn split_halves_meet() {
    let c = wavy();
    let (first, second) = c.split_at(Ratio::new(2, 5));
    assert!(first.evaluate(Ratio::new(1, 1)).same_point(&second.evaluate(Ratio::new(0, 1))));
}

#[test]
fn split_halves_follow_curve() {
    let c = arch();
    let (first, second) = c.split_at(Ratio::new(1, 2));
    // first(s) = c(s·t); second(s) = c(t + s·(1 - t))
    assert!(first.evaluate(Ratio::new(1, 2)).same_point(&c.evaluate(Ratio::new(1, 4))));
    assert!(second.evaluate(Ratio::new(1, 2)).same_point(&c.evaluate(Ratio::new(3, 4))));
    assert!(first.evaluate(Ratio::new(1, 3)).same_point(&c.evaluate(Ratio::new(1, 6))));
    assert!(second.evaluate(Ratio::new(1, 3)).same_point(&c.evaluate(Ratio::new(2, 3))));
}

#[test]
fn split_outside_unit_interval() {
    let c = arch();
    let (first, second) = c.split_at(Ratio::new(3, 2));
    assert!(first.p3.same_point(&c.evaluate(Ratio::new(3, 2))));
    assert!(first.p3.same_point(&second.p0));
}

#[test]
fn degenerate_curve() {
    let p = Vector2::new(4, -2);
    let c = BezierCurve::new(p, p, p, p);
    assert!(c.evaluate(Ratio::new(2, 7)).same_point(&p));
    let (first, second) = c.split_at(Ratio::new(2, 7));
    assert!(first.p2.same_point(&p));
    assert!(second.p1.same_point(&p));
}
