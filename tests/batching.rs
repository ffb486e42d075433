use price_windows::{make_mini_batches, ShapeError};

fn windows(n: i64, rows: i64, cols: i64) -> Vec<Vec<Vec<i64>>> {
    (0..n)
        .map(|k| (0..rows).map(|r| (0..cols).map(|c| (k * rows + r) * cols + c).collect()).collect())
        .collect()
}

fn rates(n: i64, rows: i64) -> Vec<Vec<i64>> {
    (0..n).map(|k| (0..rows).map(|r| k * rows + r).collect()).collect()
}

#[test]
fn test_make_mini_batches() {
    let lpm = windows(9, 2, 2);
    let pcr = rates(9, 2);
    assert_eq!(lpm[8], vec![vec![32, 33], vec![34, 35]]);
    assert_eq!(pcr[8], vec![16, 17]);
    let (lpm_batch, pcr_batch) = make_mini_batches(lpm, pcr, 4).unwrap();
    assert_eq!(lpm_batch.len(), 2);
    assert_eq!(pcr_batch.len(), 2);
    for k in 0..2 {
        assert_eq!(lpm_batch[k].len(), 4);
        assert_eq!(pcr_batch[k].len(), 4);
    }
    let flat: Vec<i64> = lpm_batch.iter().flatten().flatten().flatten().copied().collect();
    assert_eq!(flat, (0..32).collect::<Vec<i64>>());
    let flat: Vec<i64> = pcr_batch.iter().flatten().flatten().copied().collect();
    assert_eq!(flat, (0..16).collect::<Vec<i64>>());
}

#[test]
fn batching_drops_trailing_window() {
    let lpm: Vec<usize> = (0..9).collect();
    let pcr: Vec<usize> = (100..109).collect();
    let (lb, pb) = make_mini_batches(lpm, pcr, 4).unwrap();
    assert_eq!(lb, vec![vec![0, 1, 2, 3], vec![4, 5, 6, 7]]);
    assert_eq!(pb, vec![vec![100, 101, 102, 103], vec![104, 105, 106, 107]]);
    assert!(!lb.iter().flatten().any(|&i| i == 8));
}

#[test]
fn batching_counts() {
    for n in 0..30usize {
        for b in 1..8usize {
            let lpm: Vec<usize> = (0..n).collect();
            let pcr: Vec<usize> = (0..n).collect();
            match make_mini_batches(lpm, pcr, b) {
                Ok((lb, pb)) => {
                    assert_eq!(lb.len(), n / b);
                    assert_eq!(pb.len(), n / b);
                    let flat: Vec<usize> = lb.into_iter().flatten().collect();
                    assert_eq!(flat, (0..(n / b) * b).collect::<Vec<usize>>());
                }
                Err(e) => {
                    assert!(n < b);
                    assert_eq!(e, ShapeError::TooFewWindows);
                }
            }
        }
    }
}

#[test]
fn rebatching_flattened_batches_gives_them_back() {
    let lpm: Vec<u8> = (0..23).collect();
    let pcr: Vec<u8> = (50..73).collect();
    let (lb, pb) = make_mini_batches(lpm, pcr, 5).unwrap();
    let flat_l: Vec<u8> = lb.iter().flatten().copied().collect();
    let flat_p: Vec<u8> = pb.iter().flatten().copied().collect();
    let (lb2, pb2) = make_mini_batches(flat_l, flat_p, 5).unwrap();
    assert_eq!(lb, lb2);
    assert_eq!(pb, pb2);
}

#[test]
fn single_batch_of_everything() {
    let lpm = windows(6, 3, 2);
    let pcr = rates(6, 3);
    let (lb, pb) = make_mini_batches(lpm.clone(), pcr.clone(), 6).unwrap();
    assert_eq!(lb, vec![lpm]);
    assert_eq!(pb, vec![pcr]);
}

#[test]
fn batching_rejects_zero_batch_size() {
    let r = make_mini_batches(vec![1, 2, 3], vec![1, 2, 3], 0);
    assert_eq!(r, Err(ShapeError::BatchTooSmall));
}

#[test]
fn batching_rejects_count_mismatch() {
    let r = make_mini_batches(vec![1, 2, 3], vec![1, 2], 1);
    assert_eq!(r, Err(ShapeError::CountMismatch));
}

#[test]
fn batching_rejects_too_few_windows() {
    let r = make_mini_batches(vec![1, 2, 3], vec![1, 2, 3], 4);
    assert_eq!(r, Err(ShapeError::TooFewWindows));
}
