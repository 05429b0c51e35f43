use mnist_idx::dataset::{DecodeError, MnistDataset};

fn push_be32(buf: &mut Vec<u8>, v: u32) {
    buf.push((v >> 24) as u8);
    buf.push((v >> 16) as u8);
    buf.push((v >> 8) as u8);
    buf.push(v as u8);
}

fn images_blob(magic: u32, n: u32, rows: u32, cols: u32, pixels: &[u8]) -> Vec<u8> {
    let mut b: Vec<u8> = Vec::new();
    push_be32(&mut b, magic);
    push_be32(&mut b, n);
    push_be32(&mut b, rows);
    push_be32(&mut b, cols);
    b.extend_from_slice(pixels);
    b
}

fn labels_blob(magic: u32, m: u32, labels: &[u8]) -> Vec<u8> {
    let mut b: Vec<u8> = Vec::new();
    push_be32(&mut b, magic);
    push_be32(&mut b, m);
    b.extend_from_slice(labels);
    b
}

#[test]
fn decode_single_image() {
    let blob = images_blob(2051, 1, 2, 2, &[0, 128, 255, 64]);
    let ds = MnistDataset::load_images(&blob).unwrap();
    assert_eq!(ds.images.len(), 1);
    assert_eq!(ds.images[0].image, vec![0, 128, 255, 64]);
    assert_eq!(ds.images[0].label, None);
}

#[test]
fn decode_several_images() {
    let blob = images_blob(2051, 3, 1, 2, &[1, 2, 3, 4, 5, 6]);
    let ds = MnistDataset::load_images(&blob).unwrap();
    assert_eq!(ds.images.len(), 3);
    assert_eq!(ds.images[0].image, vec![1, 2]);
    assert_eq!(ds.images[1].image, vec![3, 4]);
    assert_eq!(ds.images[2].image, vec![5, 6]);
    for img in &ds.images {
        assert_eq!(img.label, None);
    }
}

#[test]
fn wrong_magic_rejected() {
    let blob = images_blob(9999, 1, 2, 2, &[0, 128, 255, 64]);
    match MnistDataset::load_images(&blob) {
        Err(e) => assert_eq!(e, DecodeError::FormatError),
        Ok(_) => panic!("a wrong magic number must produce no records"),
    }
}

#[test]
fn wrong_magic_rejected_regardless_of_content() {
    let blob = images_blob(2049, 0, 0, 0, &[]);
    match MnistDataset::load_images(&blob) {
        Err(e) => assert_eq!(e, DecodeError::FormatError),
        Ok(_) => panic!("a wrong magic number must be rejected"),
    }
}

#[test]
fn truncated_mid_record() {
    let blob = images_blob(2051, 2, 2, 2, &[1, 2, 3, 4, 5, 6]);
    match MnistDataset::load_images(&blob) {
        Err(e) => assert_eq!(e, DecodeError::TruncatedInputError),
        Ok(_) => panic!("a truncated blob must produce no records"),
    }
}

#[test]
fn truncated_header() {
    let short: Vec<u8> = vec![0, 0, 8, 3, 0, 0];
    match MnistDataset::load_images(&short) {
        Err(e) => assert_eq!(e, DecodeError::TruncatedInputError),
        Ok(_) => panic!("a blob cut short mid-header must be rejected"),
    }
    let tiny: Vec<u8> = vec![0, 0];
    match MnistDataset::load_images(&tiny) {
        Err(e) => assert_eq!(e, DecodeError::TruncatedInputError),
        Ok(_) => panic!("a blob too short for a magic number must be rejected"),
    }
}

#[test]
fn zero_count_gives_empty_dataset() {
    let blob = images_blob(2051, 0, 28, 28, &[]);
    let ds = MnistDataset::load_images(&blob).unwrap();
    assert_eq!(ds.images.len(), 0);
}

#[test]
fn negative_count_gives_empty_dataset() {
    let blob = images_blob(2051, 0xFFFF_FFFF, 2, 2, &[9, 9, 9, 9]);
    let ds = MnistDataset::load_images(&blob).unwrap();
    assert_eq!(ds.images.len(), 0);
}

#[test]
fn negative_dimension_rejected() {
    let blob = images_blob(2051, 1, 0xFFFF_FFFF, 2, &[1, 2, 3, 4]);
    match MnistDataset::load_images(&blob) {
        Err(e) => assert_eq!(e, DecodeError::TruncatedInputError),
        Ok(_) => panic!("a negative dimension leaves no record to read"),
    }
}

#[test]
fn trailing_bytes_ignored() {
    let blob = images_blob(2051, 1, 2, 2, &[1, 2, 3, 4, 99, 98, 97]);
    let ds = MnistDataset::load_images(&blob).unwrap();
    assert_eq!(ds.images.len(), 1);
    assert_eq!(ds.images[0].image, vec![1, 2, 3, 4]);
}

#[test]
fn labels_assigned_in_order() {
    let blob = images_blob(2051, 2, 2, 2, &[1, 2, 3, 4, 5, 6, 7, 8]);
    let mut ds = MnistDataset::load_images(&blob).unwrap();
    let labels = labels_blob(2049, 2, &[7, 3]);
    ds.load_labels(&labels).unwrap();
    assert_eq!(ds.images[0].label, Some(7));
    assert_eq!(ds.images[1].label, Some(3));
    assert_eq!(ds.images[0].image, vec![1, 2, 3, 4]);
    assert_eq!(ds.images[1].image, vec![5, 6, 7, 8]);
}

#[test]
fn label_count_mismatch_leaves_dataset_unchanged() {
    let blob = images_blob(2051, 2, 2, 2, &[1, 2, 3, 4, 5, 6, 7, 8]);
    let mut ds = MnistDataset::load_images(&blob).unwrap();
    let labels = labels_blob(2049, 1, &[7]);
    match ds.load_labels(&labels) {
        Err(e) => assert_eq!(e, DecodeError::ConsistencyError),
        Ok(()) => panic!("a label count mismatch must be rejected"),
    }
    assert_eq!(ds.images.len(), 2);
    assert_eq!(ds.images[0].label, None);
    assert_eq!(ds.images[1].label, None);
}

#[test]
fn labels_wrong_magic_rejected() {
    let blob = images_blob(2051, 1, 1, 1, &[5]);
    let mut ds = MnistDataset::load_images(&blob).unwrap();
    let labels = labels_blob(2051, 1, &[7]);
    match ds.load_labels(&labels) {
        Err(e) => assert_eq!(e, DecodeError::FormatError),
        Ok(()) => panic!("a wrong labels magic number must be rejected"),
    }
    assert_eq!(ds.images[0].label, None);
}

#[test]
fn labels_truncated_leaves_dataset_unchanged() {
    let blob = images_blob(2051, 2, 1, 1, &[5, 6]);
    let mut ds = MnistDataset::load_images(&blob).unwrap();
    let labels = labels_blob(2049, 2, &[7]);
    match ds.load_labels(&labels) {
        Err(e) => assert_eq!(e, DecodeError::TruncatedInputError),
        Ok(()) => panic!("a truncated labels blob must assign nothing"),
    }
    assert_eq!(ds.images[0].label, None);
    assert_eq!(ds.images[1].label, None);
}

#[test]
fn labels_trailing_bytes_ignored() {
    let blob = images_blob(2051, 1, 1, 1, &[5]);
    let mut ds = MnistDataset::load_images(&blob).unwrap();
    let labels = labels_blob(2049, 1, &[9, 42, 42]);
    ds.load_labels(&labels).unwrap();
    assert_eq!(ds.images[0].label, Some(9));
}

#[test]
fn test_dataset_loading() {
    let pixels = vec![0u8; 10000 * 28 * 28];
    let blob = images_blob(2051, 10000, 28, 28, &pixels);
    let dataset = MnistDataset::load_images(&blob).unwrap();
    assert!(dataset.images.len() == 10000)
}

#[test]
fn test_dataset_labels_loading() {
    let pixels = vec![0u8; 10000 * 28 * 28];
    let blob = images_blob(2051, 10000, 28, 28, &pixels);
    let mut dataset = MnistDataset::load_images(&blob).unwrap();

    let label_bytes: Vec<u8> = (0..10000u32).map(|i| (i % 10) as u8).collect();
    let labels = labels_blob(2049, 10000, &label_bytes);
    dataset.load_labels(&labels).unwrap();
    assert!(dataset.images.len() == 10000);
    assert_eq!(dataset.images[9999].label, Some(9));
}
