use hmeasure::{BetaParams, CostRatioDensity, HMeasure, HMeasureResults};
use pyhmeasure::scores::{get_scores, BinaryClassScores, ScoreError, ScoreSource};
use pyhmeasure::table::load_scores;

const MIXED: &str = "i,a,b\n0,0.1,0.3\n1,0.4,0.8\n2,0.5,0.9\n3,0.7,\n";
const MIRRORED: &str = "i,a,b\n0,-0.3,-0.1\n1,-0.8,-0.4\n2,-0.9,-0.5\n3,,-0.7\n";
const SEPARATED: &str = "i,a,b\n0,0.1,0.7\n1,0.2,0.8\n2,0.3,0.9\n";
const OVERLAPPING: &str = "i,a,b\n0,0.1,0.1\n1,0.4,0.4\n2,0.5,0.5\n";

fn parsed(cells: &[String]) -> Vec<f64> {
    cells.iter().map(|cell| cell.parse::<f64>().expect("a number")).collect()
}

fn measured(class0: Vec<f64>, class1: Vec<f64>, alpha: f64, beta: f64) -> HMeasureResults {
    let pair = BinaryClassScores::new(class0, class1).expect("scores of both classes");
    let (class0, class1) = pair.into_scores();
    let mut scores = hmeasure::BinaryClassScores { class0, class1 };
    let density = CostRatioDensity::new(BetaParams { alpha, beta });
    HMeasure::new(density, None, None).h_measure(&mut scores)
}

fn evaluate(table: &str, alpha: f64, beta: f64) -> HMeasureResults {
    let cells = load_scores(table.as_bytes()).expect("a well-formed table");
    measured(parsed(&cells.class0), parsed(&cells.class1), alpha, beta)
}

#[test]
fn table_scores_reach_the_measure_in_order() {
    let cells = load_scores(MIXED.as_bytes()).expect("a well-formed table");
    assert_eq!(parsed(&cells.class0), vec![0.1, 0.4, 0.5, 0.7]);
    assert_eq!(parsed(&cells.class1), vec![0.3, 0.8, 0.9]);
    let result = evaluate(MIXED, 2.0, 2.0);
    assert_eq!(result.class0_score, vec![0.1, 0.4, 0.5, 0.7]);
    assert_eq!(result.class1_score, vec![0.3, 0.8, 0.9]);
}

#[test]
fn h_of_a_small_table_is_reproduced() {
    let result = evaluate(MIXED, 2.0, 2.0);
    assert!((result.h - 0.582671618852).abs() < 1e-9, "h = {}", result.h);
}

#[test]
fn h_lies_between_zero_and_one() {
    for table in [MIXED, MIRRORED, SEPARATED, OVERLAPPING] {
        let h = evaluate(table, 2.0, 2.0).h;
        assert!(h >= -1e-9 && h <= 1.0 + 1e-9, "h = {}", h);
    }
}

#[test]
fn roc_curve_runs_from_corner_to_corner() {
    for table in [MIXED, MIRRORED, SEPARATED, OVERLAPPING] {
        let curve = evaluate(table, 2.0, 2.0).roc_curve;
        assert_eq!(curve.first(), Some(&vec![0.0, 0.0]));
        assert_eq!(curve.last(), Some(&vec![1.0, 1.0]));
        for pair in curve.windows(2) {
            assert!(pair[0][0] <= pair[1][0], "curve = {:?}", curve);
        }
    }
}

#[test]
fn hull_points_lie_on_the_roc_curve() {
    for table in [MIXED, MIRRORED, SEPARATED, OVERLAPPING] {
        let result = evaluate(table, 2.0, 2.0);
        for point in &result.convex_hull {
            assert!(result.roc_curve.contains(point), "hull = {:?}", result.convex_hull);
        }
        assert_eq!(result.convex_hull.last(), Some(&vec![1.0, 1.0]));
    }
}

#[test]
fn overlapping_classes_have_h_zero() {
    assert_eq!(evaluate(OVERLAPPING, 2.0, 2.0).h, 0.0);
}

#[test]
fn separated_classes_have_h_one() {
    let h = evaluate(SEPARATED, 2.0, 2.0).h;
    assert!((h - 1.0).abs() < 1e-9, "h = {}", h);
}

#[test]
fn swapping_classes_and_negating_scores_keeps_h() {
    let plain = evaluate(MIXED, 2.0, 2.0).h;
    let mirrored = evaluate(MIRRORED, 2.0, 2.0).h;
    assert!((plain - mirrored).abs() < 1e-9, "{} against {}", plain, mirrored);
}

#[test]
fn evaluation_is_repeatable() {
    let first = evaluate(MIXED, 2.0, 2.0);
    let second = evaluate(MIXED, 2.0, 2.0);
    assert_eq!(first.h.to_bits(), second.h.to_bits());
    assert_eq!(first.roc_curve, second.roc_curve);
    assert_eq!(first.convex_hull, second.convex_hull);
}

#[test]
fn given_scores_and_table_scores_agree() {
    let from_table = evaluate(MIXED, 2.0, 2.0).h;
    let given = match get_scores(Some(vec![0.1, 0.4, 0.5, 0.7]), Some(vec![0.3, 0.8, 0.9]), None) {
        Ok(ScoreSource::Given { class0, class1 }) => measured(class0, class1, 2.0, 2.0).h,
        other => panic!("unexpected source: {:?}", other),
    };
    assert_eq!(from_table.to_bits(), given.to_bits());
}

#[test]
fn a_table_with_an_empty_class_is_refused_before_the_measure() {
    let cells = load_scores(b"i,a,b\n0,0.1,\n1,0.2,\n").expect("a well-formed table");
    let refused = BinaryClassScores::new(parsed(&cells.class0), parsed(&cells.class1));
    assert_eq!(refused.err(), Some(ScoreError::InvalidInput));
}
