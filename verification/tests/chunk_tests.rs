use scalable_reports::chunk::{chunked_response, concat_fetched, get_chunk};

#[test]
fn small_payload_is_returned_whole() {
    let bytes: Vec<u8> = vec![1, 2, 3];
    let (data, (index, total)) = get_chunk(&bytes, 0, 10);
    assert_eq!(data, bytes);
    assert_eq!((index, total), (0, 0));
}

#[test]
fn total_is_length_over_window_rounded_up() {
    let bytes: Vec<u8> = (0..10).collect();
    let (_, (_, total)) = get_chunk(&bytes, 0, 4);
    assert_eq!(total, 3);
    let (_, (_, total)) = get_chunk(&bytes, 0, 5);
    assert_eq!(total, 2);
    let (_, (_, total)) = get_chunk(&bytes, 0, 10);
    assert_eq!(total, 1);
    let (_, (_, total)) = get_chunk(&bytes, 0, 1);
    assert_eq!(total, 10);
}

#[test]
fn windows_partition_the_bytes() {
    let bytes: Vec<u8> = (0..10).collect();
    let (w0, (i0, total)) = get_chunk(&bytes, 0, 4);
    assert_eq!(i0, 0);
    assert_eq!(total, 3);
    assert_eq!(w0, vec![0, 1, 2, 3]);
    let (w1, _) = get_chunk(&bytes, 1, 4);
    assert_eq!(w1, vec![4, 5, 6, 7]);
    let (w2, _) = get_chunk(&bytes, 2, 4);
    assert_eq!(w2, vec![8, 9]);
    let (past, _) = get_chunk(&bytes, 3, 4);
    assert!(past.is_empty());
}

#[test]
fn round_trip_reconstructs_the_bytes_exactly() {
    for len in 1..40usize {
        let bytes: Vec<u8> = (0..len as u8).collect();
        for max in 1..12usize {
            let (_, (_, mut total)) = get_chunk(&bytes, 0, max);
            if total == 0 {
                total = 1;
            }
            let mut windows: Vec<Vec<u8>> = Vec::new();
            for i in 0..total {
                let (w, _) = get_chunk(&bytes, i, max);
                windows.push(w);
            }
            assert_eq!(concat_fetched(&windows), bytes);
        }
    }
}

#[test]
fn unauthorized_export_is_empty_and_zero_flagged() {
    let bytes: Vec<u8> = (0..10).collect();
    let (data, (index, total)) = chunked_response(false, &bytes, 0, 4);
    assert!(data.is_empty());
    assert_eq!((index, total), (0, 0));
    // The same request, authorized, answers normally.
    let (data, (index, total)) = chunked_response(true, &bytes, 0, 4);
    assert_eq!(data, vec![0, 1, 2, 3]);
    assert_eq!((index, total), (0, 3));
}
