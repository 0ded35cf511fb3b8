use otp76::pad::{pad_from_draws, EmptyKeysError, Pad, PadCollection, PadGenerator, MAX_ID, MAX_KEY, MIN_ID};

fn id_number(pad: &Pad) -> u32 {
    pad.get_id().parse().unwrap()
}

#[test]
fn test_pad_creation() {
    let id = "12345";
    let keys = vec![1, 2, 3, 4, 5, 6, 7, 8, 9, 10];
    let pad = Pad::new(id, keys).unwrap();

    assert_eq!(pad.get_id(), "12345");
    assert_eq!(pad.len(), 10);
}

#[test]
fn test_pad_generation() {
    let mut generator = PadGenerator::new();

    let pad = generator.generate_pad(5).unwrap();

    assert_eq!(pad.len(), 25);
}

#[test]
fn test_pads_generation() {
    let mut generator = PadGenerator::new();

    let pads = generator.generate_pads(2, 5).unwrap();

    assert_eq!(pads.len(), 2);
    assert_eq!(pads[0].len(), 25);
    assert_eq!(pads[1].len(), 25);
}

#[test]
fn test_pad_collection() {
    let pad1 = Pad::new("12345", vec![1, 2, 3, 4, 5]).unwrap();
    let mut collection = PadCollection::new(vec![pad1]);

    assert!(!collection.is_empty());

    let pad = collection.get_pad("12345").unwrap();

    assert_eq!(pad.get_id(), "12345");

    collection.delete_pad("12345");

    assert!(collection.get_pad("12345").is_none());
    assert!(collection.is_empty());
}

#[test]
fn empty_keys_are_refused() {
    assert_eq!(Pad::new("12345", vec![]).unwrap_err(), EmptyKeysError);
}

#[test]
fn keys_are_kept_exactly() {
    let pad = Pad::new("777", vec![9, 0, 4]).unwrap();
    assert_eq!(pad.get_keys(), &[9, 0, 4]);
    assert_eq!(pad.len(), 3);
    assert_eq!(pad.get_id(), "777");
}

#[test]
fn generated_pad_keys_and_id_in_range() {
    let mut generator = PadGenerator::new();
    for nb_keys in [1u8, 20, 100] {
        let pad = generator.generate_pad(nb_keys).unwrap();
        assert_eq!(pad.len(), nb_keys as usize * 5);
        assert!(pad.get_keys().iter().all(|k| *k < MAX_KEY));
        let id = id_number(&pad);
        assert!(MIN_ID <= id && id < MAX_ID);
        assert_eq!(pad.get_id().len(), 5);
    }
}

#[test]
fn generated_pads_count_and_shape() {
    let mut generator = PadGenerator::new();
    let pads = generator.generate_pads(7, 3).unwrap();
    assert_eq!(pads.len(), 7);
    for pad in &pads {
        assert_eq!(pad.len(), 15);
        let id = id_number(pad);
        assert!(MIN_ID <= id && id < MAX_ID);
    }
    assert!(generator.generate_pads(0, 3).unwrap().is_empty());
}

#[test]
fn get_pad_returns_first_match() {
    let a = Pad::new("1", vec![1]).unwrap();
    let b = Pad::new("2", vec![2, 2]).unwrap();
    let c = Pad::new("1", vec![3, 3, 3]).unwrap();
    let collection = PadCollection::new(vec![a, b, c]);
    assert_eq!(collection.get_pad("1").unwrap().len(), 1);
    assert_eq!(collection.get_pad("2").unwrap().len(), 2);
    assert!(collection.get_pad("3").is_none());
}

#[test]
fn delete_pad_removes_every_match_and_keeps_order() {
    let a = Pad::new("1", vec![1]).unwrap();
    let b = Pad::new("2", vec![2, 2]).unwrap();
    let c = Pad::new("1", vec![3, 3, 3]).unwrap();
    let d = Pad::new("4", vec![4, 4, 4, 4]).unwrap();
    let mut collection = PadCollection::new(vec![a, b, c, d]);
    collection.delete_pad("1");
    assert_eq!(collection.len(), 2);
    assert!(collection.get_pad("1").is_none());
    let left = collection.into_pads();
    assert_eq!(left[0].get_id(), "2");
    assert_eq!(left[1].get_id(), "4");
}

#[test]
fn delete_unknown_id_changes_nothing() {
    let a = Pad::new("12345", vec![1, 2]).unwrap();
    let mut collection = PadCollection::new(vec![a]);
    collection.delete_pad("54321");
    assert_eq!(collection.len(), 1);
    assert!(!collection.is_empty());
}

#[test]
fn empty_after_new_and_after_deleting_all() {
    let collection = PadCollection::new(vec![]);
    assert!(collection.is_empty());

    let mut collection = PadCollection::new(vec![]);
    collection.add_pad(Pad::new("12345", vec![1, 2, 3, 4, 5]).unwrap());
    collection.add_pad(Pad::new("54321", vec![5, 4, 3, 2, 1]).unwrap());
    assert!(!collection.is_empty());
    collection.delete_pad("12345");
    assert!(!collection.is_empty());
    collection.delete_pad("54321");
    assert!(collection.is_empty());
}

#[test]
fn pad_from_draws_uses_first_draw_as_id_and_rest_as_keys() {
    let pad = pad_from_draws(12345, &vec![7, 0, 9, 3]).unwrap();
    assert_eq!(pad.get_id(), "12345");
    assert_eq!(pad.get_keys(), &[7, 0, 9, 3]);
    let pad = pad_from_draws(0, &vec![300]).unwrap();
    assert_eq!(pad.get_id(), "0");
    assert_eq!(pad.get_keys(), &[44]);
    assert_eq!(pad_from_draws(10000, &vec![]).unwrap_err(), EmptyKeysError);
}

#[test]
fn create_collection_makes_requested_pads() {
    let mut generator = PadGenerator::new();
    let collection = generator.create_collection(4, 2).unwrap();
    assert_eq!(collection.len(), 4);
    for pad in collection.pads() {
        assert_eq!(pad.len(), 10);
    }
}

#[test]
fn deleting_every_added_pad_empties_collection() {
    let ids = ["11111", "22222", "11111", "33333", "44444"];
    let mut collection = PadCollection::new(vec![]);
    for (i, id) in ids.iter().enumerate() {
        collection.add_pad(Pad::new(id, vec![i as u8 + 1]).unwrap());
    }
    assert_eq!(collection.len(), 5);
    for id in ids.iter() {
        collection.delete_pad(id);
        assert!(collection.get_pad(id).is_none());
    }
    assert!(collection.is_empty());
}
