use stele::Stele;

#[test]
fn write_test() {
    let (mut wh, rh) = Stele::new();
    for n in 0..1 << 8 {
        wh.push(n);
    }
    assert_eq!(rh.len(), 1 << 8);
}

#[test]
fn write_zst() {
    let (mut wh, rh) = Stele::new();
    for _ in 0..256 {
        wh.push(());
    }
    assert_eq!(rh.len(), 256);
    for i in 0..256 {
        assert_eq!(rh.read(i), Some(&()));
    }
}

#[test]
fn getcopy() {
    let (mut wh, rh) = Stele::new();
    wh.push(0);
    assert_eq!(rh.get(0), Some(0));
}

#[test]
fn never_writes() {
    let (wh, rh) = Stele::<()>::new();
    assert!(wh.is_empty());
    assert!(rh.is_empty());
}

#[test]
fn iterator() {
    let sequence = &[92, 47, 68, 23, 15];
    let (_, rh) = Stele::from_vec(sequence.to_vec()).to_handles();
    let mut ref_iter = rh.iter();
    for orig in sequence.iter() {
        assert_eq!(ref_iter.next(), Some(orig));
    }
    assert_eq!(ref_iter.next(), None);
}

#[test]
fn copy_iterator() {
    let sequence = [92, 47, 68, 23, 15];
    let (_, rh) = Stele::from_vec(sequence.to_vec()).to_handles();
    let mut copy_iter = rh.into_iter();
    for orig in sequence.iter().copied() {
        assert_eq!(copy_iter.next(), Some(orig));
    }
    assert_eq!(copy_iter.next(), None);
}

#[test]
fn read_through_writer() {
    let (wh, _) = Stele::<u8>::new();
    let mut wh = wh;
    let rh = wh.new_read_handle();
    wh.push(42);
    assert_eq!(wh.read(0), Some(&42_u8));
    assert_eq!(wh.get(0), Some(42_u8));
    assert_eq!(wh.read(0), rh.read(0));
    assert_eq!(wh.get(0), rh.get(0));
    assert!(wh.try_read(1).is_none());
}

#[test]
fn reads() {
    let (mut writer, reader) = Stele::new();
    assert!(writer.is_empty());
    writer.push(42);
    assert_eq!(writer.len(), 1);
    assert_eq!(reader.read(0), Some(&42));
    assert_eq!(reader.read(0).copied(), Some(42));
    assert!(reader.try_read(1).is_none());
    let copied = writer.get(0);
    assert_eq!(copied, Some(42));
}

#[test]
fn appended_values_read_back_in_order() {
    let (mut wh, rh) = Stele::new();
    let values: Vec<u64> = (0..1000u64).map(|i| i * 7 + 3).collect();
    for v in values.iter() {
        wh.push(*v);
    }
    for (i, v) in values.iter().enumerate() {
        assert_eq!(rh.read(i), Some(v));
        assert_eq!(rh.try_read(i), Some(v));
        assert_eq!(wh.read(i), Some(v));
        assert_eq!(rh.get(i), Some(*v));
    }
    assert_eq!(rh.try_read(1000), None);
    assert_eq!(wh.try_read(1000), None);
    assert_eq!(wh.get(1000), None);
}

#[test]
fn non_copy_values_read_back() {
    let (mut wh, rh) = Stele::new();
    for i in 0..40 {
        wh.push(format!("item {}", i));
    }
    for i in 0..40 {
        assert_eq!(rh.read(i).map(|s| s.as_str()), Some(format!("item {}", i).as_str()));
    }
}

#[test]
fn length_never_goes_down() {
    let (mut wh, rh) = Stele::new();
    let other = rh.clone();
    let mut seen = rh.len();
    for i in 0..100u32 {
        wh.push(i);
        let now = other.len();
        assert!(now >= seen);
        assert_eq!(now, (i + 1) as usize);
        assert_eq!(wh.len(), now);
        seen = now;
    }
    assert!(!rh.is_empty());
    assert!(!other.is_empty());
}

#[test]
fn iterator_stops_at_length_seen_at_start() {
    let (mut wh, rh) = Stele::new();
    for i in 0..3u8 {
        wh.push(i);
    }
    let mut walk = rh.iter();
    wh.push(3);
    assert_eq!(walk.next(), Some(&0));
    assert_eq!(walk.next(), Some(&1));
    assert_eq!(walk.next(), Some(&2));
    assert_eq!(walk.next(), None);
    assert_eq!(walk.next(), None);
    assert_eq!(rh.len(), 4);
}

#[test]
fn build_and_drop_every_length_to_300() {
    for n in 0..=300usize {
        let (mut wh, rh) = Stele::new();
        for i in 0..n {
            wh.push(vec![i; 3]);
        }
        assert_eq!(rh.len(), n);
        if n > 0 {
            assert_eq!(rh.read(n - 1), Some(&vec![n - 1; 3]));
        }
        let more = rh.clone();
        drop(wh);
        drop(rh);
        assert_eq!(more.len(), n);
    }
}

#[test]
fn five_readers_see_every_byte_in_order() {
    let (mut wh, rh) = Stele::new();
    for b in 0..=255u8 {
        wh.push(b);
    }
    let expected: Vec<u8> = (0..=255u8).collect();
    let readers = vec![rh.clone(), rh.clone(), wh.new_read_handle(), rh.clone(), rh];
    assert_eq!(readers.len(), 5);
    for r in readers {
        let mut by_ref = Vec::new();
        let mut walk = r.iter();
        while let Some(b) = walk.next() {
            by_ref.push(*b);
        }
        assert_eq!(by_ref, expected);
        let mut by_copy = Vec::new();
        let mut walk = r.into_iter();
        while let Some(b) = walk.next() {
            by_copy.push(b);
        }
        assert_eq!(by_copy, expected);
    }
}

#[test]
fn built_sequence_keeps_its_elements_when_shared() {
    let (mut wh, rh) = Stele::from_vec(vec![10u16, 20, 30]).to_handles();
    assert_eq!(wh.len(), 3);
    assert_eq!(rh.len(), 3);
    wh.push(40);
    assert_eq!(wh.len(), 4);
    assert_eq!(rh.try_read(3), Some(&40));
    assert_eq!(rh.get(0), Some(10));
    assert_eq!(wh.get(2), Some(30));
}

#[test]
fn empty_built_sequence() {
    let (wh, rh) = Stele::<u8>::from_vec(Vec::new()).to_handles();
    assert!(wh.is_empty());
    assert!(rh.is_empty());
    assert_eq!(rh.try_read(0), None);
}
