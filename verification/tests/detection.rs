//! Boxes around detected objects.

use k3_hera::detect::{
    border, by_score, find_boxes, parse_test_flag, thin_out, Candidate, Demand, Overlap, Scoring,
};
use k3_hera::picture::{colour_planes, square, PICTURE_SIDE};

fn number(bits: u32) -> f32 {
    f32::from_bits(bits)
}

fn better(score: u32, best: u32) -> bool {
    number(score).is_finite() && number(score) > number(best)
}

fn multiply(a: u32, b: u32) -> u32 {
    (number(a) * number(b)).to_bits()
}

fn keep(score: u32, place: [u32; 4]) -> bool {
    number(score).is_finite()
        && number(score) >= 0.25
        && place.iter().all(|bits| number(*bits).is_finite())
}

fn low(centre: u32, extent: u32, limit: u32) -> u32 {
    (number(centre) - number(extent) / 2.0).clamp(0.0, limit as f32) as u32
}

fn high(centre: u32, extent: u32, limit: u32) -> u32 {
    (number(centre) + number(extent) / 2.0).clamp(0.0, limit as f32) as u32
}

fn too_much(overlap: Overlap) -> bool {
    let shared = overlap.shared_width as f32 * overlap.shared_height as f32;
    let union = overlap.width as f32 * overlap.height as f32
        + overlap.kept_width as f32 * overlap.kept_height as f32
        - shared;
    union > 0.0 && shared / union > 0.45
}

fn row(x: f32, y: f32, w: f32, h: f32, confidence: f32, class: usize, score: f32) -> Vec<u32> {
    let mut values = vec![0_u32; 85];
    for (index, value) in [x, y, w, h, confidence].iter().enumerate() {
        values[index] = value.to_bits();
    }
    values[5 + class] = score.to_bits();
    values
}

#[test]
fn overlapping_boxes_of_a_class_are_thinned_out() {
    let mut predictions = Vec::new();
    predictions.extend(row(50.0, 50.0, 20.0, 20.0, 0.9, 3, 0.8));
    predictions.extend(row(51.0, 51.0, 20.0, 20.0, 0.9, 3, 0.9));
    predictions.extend(row(51.0, 51.0, 20.0, 20.0, 0.9, 4, 0.7));
    predictions.extend(row(10.0, 10.0, 8.0, 8.0, 0.1, 0, 0.9));
    predictions.extend(row(10.0, 10.0, 0.0, 8.0, 0.9, 0, 0.9));
    let scoring = Scoring {
        better,
        multiply,
        keep,
        low,
        high,
    };
    let boxes = find_boxes(&predictions, 99, 99, &scoring, &too_much).unwrap();
    assert_eq!(boxes.len(), 2);
    assert_eq!(boxes[0].class, 3);
    assert_eq!((boxes[0].x1, boxes[0].x2), (41, 61));
    assert_eq!(boxes[1].class, 4);
    assert!(find_boxes(&predictions[1..], 99, 99, &scoring, &too_much).is_none());
}

fn candidate(x: u32, class: usize, score: f32) -> Candidate {
    Candidate {
        x1: x,
        y1: 0,
        x2: x + 10,
        y2: 10,
        class,
        score: score.to_bits(),
    }
}

#[test]
fn the_highest_score_comes_first() {
    let candidates = vec![
        candidate(0, 1, 0.5),
        candidate(1, 1, 0.9),
        candidate(30, 1, 0.5),
    ];
    let order = by_score(&candidates);
    assert_eq!(order, vec![1, 0, 2]);
    assert_eq!(thin_out(&candidates, &order, &too_much), vec![1, 2]);
    let never = |_: Overlap| false;
    assert_eq!(thin_out(&candidates, &order, &never), vec![1, 0, 2]);
}

#[test]
fn borders_are_closed() {
    let frame = Candidate {
        x1: 1,
        y1: 2,
        x2: 3,
        y2: 5,
        class: 0,
        score: 0,
    };
    let mut pixels = border(&frame);
    pixels.sort_unstable();
    pixels.dedup();
    assert_eq!(
        pixels,
        vec![
            (1, 2),
            (1, 3),
            (1, 4),
            (1, 5),
            (2, 2),
            (2, 5),
            (3, 2),
            (3, 3),
            (3, 4),
            (3, 5)
        ]
    );
}

#[test]
fn flags_are_read() {
    let args = |list: &[&str]| list.iter().map(|arg| arg.to_string()).collect::<Vec<_>>();
    assert_eq!(parse_test_flag(&args(&[])), Demand::Run { join: false });
    assert_eq!(parse_test_flag(&args(&["-t"])), Demand::Run { join: true });
    assert_eq!(parse_test_flag(&args(&["-t", "--help"])), Demand::Help);
    assert_eq!(parse_test_flag(&args(&["-x", "-h"])), Demand::Unknown(0));
}

#[test]
fn dropped_boxes_are_hidden_by_earlier_ones() {
    let candidates = vec![
        candidate(0, 1, 0.5),
        candidate(1, 1, 0.9),
        candidate(2, 2, 0.8),
        candidate(3, 2, 0.7),
        candidate(60, 2, 0.6),
    ];
    let order = by_score(&candidates);
    let kept = thin_out(&candidates, &order, &too_much);
    assert_eq!(kept, vec![1, 2, 4]);
    for (rank, dropped) in order.iter().enumerate() {
        if !kept.contains(dropped) {
            let class = candidates[*dropped].class;
            assert!(order[..rank]
                .iter()
                .any(|earlier| kept.contains(earlier) && candidates[*earlier].class == class));
        }
    }
}

#[test]
fn pictures_are_made_square() {
    let side = PICTURE_SIDE as usize;
    let plain: Vec<u8> = [10, 20, 30].repeat(4);
    let squared = square(plain, 2, 2).unwrap();
    assert_eq!(squared, [10, 20, 30].repeat(side * side));
    let steps: Vec<u8> = vec![0, 0, 0, 200, 100, 50];
    let squared = square(steps.clone(), 2, 1).unwrap();
    assert_eq!(squared.len(), 3 * side * side);
    assert_eq!(squared[..3].to_vec(), vec![0, 0, 0]);
    assert_eq!(squared[3 * side - 3..3 * side].to_vec(), vec![200, 100, 50]);
    assert_eq!(square(steps, 1, 1), None);
}

#[test]
fn colours_come_plane_by_plane() {
    assert_eq!(
        colour_planes(&[1, 2, 3, 4, 5, 6, 7, 8, 9]),
        vec![1, 4, 7, 2, 5, 8, 3, 6, 9]
    );
    assert!(colour_planes(&[]).is_empty());
}
