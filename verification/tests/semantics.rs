use std::cell::RefCell;
use std::rc::Rc;

use cstl::semantics::{
    copy_range, drop_range, encode, fill_range, move_range, BaseType, CopyMoveType, CopyOnlyType,
    DefaultUninit, MoveType,
};

/// A value that records its own destruction.
struct Probe {
    id: usize,
    log: Rc<RefCell<Vec<usize>>>,
}

impl Drop for Probe {
    fn drop(&mut self) {
        self.log.borrow_mut().push(self.id);
    }
}

/// A value that can be duplicated but has no default.
#[derive(Clone, Debug, PartialEq)]
struct Label(String);

struct Empty;

#[test]
fn encode_keeps_size_where_it_shares_a_bit_with_align() {
    assert_eq!(encode(1, 1), 1);
    assert_eq!(encode(4, 4), 4);
    assert_eq!(encode(8, 8), 8);
    assert_eq!(encode(24, 8), 24);
    assert_eq!(encode(12, 4), 12);
}

#[test]
fn encode_negates_where_size_and_align_share_no_bit() {
    assert_eq!(encode(16, 8), 24usize.wrapping_neg());
    assert_eq!(encode(16, 8), usize::MAX - 23);
    assert_eq!(encode(2, 1), usize::MAX - 2);
    assert_eq!(encode(8, 4), usize::MAX - 11);
    assert_eq!(encode(0, 0), 0);
}

#[test]
fn encode_is_injective_on_representative_layouts() {
    let layouts: [(usize, usize); 5] = [(1, 1), (4, 4), (8, 8), (16, 8), (24, 8)];
    for (i, a) in layouts.iter().enumerate() {
        for (j, b) in layouts.iter().enumerate() {
            if i != j {
                assert_ne!(encode(a.0, a.1), encode(b.0, b.1));
            }
        }
    }
    // A type without size reports the layout (1, 1), like a byte.
    assert_eq!(<() as BaseType>::type_tag(), encode(1, 1));
    assert_eq!(<() as BaseType>::type_tag(), <u8 as BaseType>::type_tag());
}

#[test]
fn encode_is_injective_on_small_layouts() {
    let mut seen: Vec<(usize, usize, usize)> = Vec::new();
    let mut align = 1usize;
    while align <= 64 {
        let mut size = align;
        while size <= 512 {
            let tag = encode(size, align);
            for (s, a, t) in seen.iter() {
                assert!(*t != tag, "({size}, {align}) and ({s}, {a}) share a tag");
            }
            seen.push((size, align, tag));
            size += align;
        }
        align *= 2;
    }
}

#[test]
fn size_of_a_type_without_size_is_one() {
    assert_eq!(<() as BaseType>::size(), 1);
    assert_eq!(<Empty as BaseType>::size(), 1);
    assert_eq!(<[u64; 0] as BaseType>::size(), 1);
    assert_eq!(<[u64; 0] as BaseType>::align(), 8);
}

#[test]
fn tag_of_a_type_without_size_aligned_above_one() {
    // It reports the size 1 beside its alignment, which no type with a size does.
    assert_eq!(<[u64; 0] as BaseType>::type_tag(), encode(1, 8));
    assert_eq!(<[u64; 0] as BaseType>::type_tag(), usize::MAX - 8);
}

#[test]
fn size_align_and_tag_of_sized_types() {
    assert_eq!(<u8 as BaseType>::size(), 1);
    assert_eq!(<u8 as BaseType>::align(), 1);
    assert_eq!(<u8 as BaseType>::type_tag(), 1);
    assert_eq!(<u32 as BaseType>::size(), 4);
    assert_eq!(<u32 as BaseType>::align(), 4);
    assert_eq!(<u32 as BaseType>::type_tag(), 4);
    assert_eq!(<u64 as BaseType>::type_tag(), 8);
    assert_eq!(<[u64; 2] as BaseType>::size(), 16);
    assert_eq!(<[u64; 2] as BaseType>::type_tag(), usize::MAX - 23);
    assert_eq!(<[u64; 3] as BaseType>::type_tag(), 24);
}

#[test]
fn drop_runs_each_destructor_once_in_ascending_order() {
    let log = Rc::new(RefCell::new(Vec::new()));
    let mut mem: Vec<Option<Probe>> =
        (0..6).map(|id| Some(Probe { id, log: log.clone() })).collect();
    <Probe as BaseType>::raw_drop(&mut mem, 1, 5);
    assert_eq!(*log.borrow(), vec![1, 2, 3, 4]);
    assert!(mem[0].is_some());
    assert!(mem[1].is_none() && mem[2].is_none() && mem[3].is_none() && mem[4].is_none());
    assert!(mem[5].is_some());
    // Destroyed slots are not destroyed again.
    <Probe as BaseType>::raw_drop(&mut mem, 1, 5);
    assert_eq!(log.borrow().len(), 4);
    drop(mem);
    assert_eq!(*log.borrow(), vec![1, 2, 3, 4, 0, 5]);
}

#[test]
fn drop_of_an_empty_range_destroys_nothing() {
    let log = Rc::new(RefCell::new(Vec::new()));
    let mut mem: Vec<Option<Probe>> =
        (0..3).map(|id| Some(Probe { id, log: log.clone() })).collect();
    drop_range(&mut mem, 2, 2);
    drop_range(&mut mem, 3, 3);
    assert!(log.borrow().is_empty());
    assert!(mem.iter().all(|slot| slot.is_some()));
}

#[test]
fn move_leaves_defaults_in_the_source() {
    let mut mem: Vec<Option<String>> = vec![
        Some("a".to_string()),
        Some("b".to_string()),
        Some("c".to_string()),
        None,
        None,
        None,
    ];
    <String as MoveType>::raw_move(&mut mem, 0, 3, 3);
    assert_eq!(
        mem,
        vec![
            Some(String::new()),
            Some(String::new()),
            Some(String::new()),
            Some("a".to_string()),
            Some("b".to_string()),
            Some("c".to_string()),
        ]
    );
}

#[test]
fn move_to_lower_addresses_and_of_a_part() {
    let mut mem: Vec<Option<u32>> = vec![None, None, Some(7), Some(8), Some(9)];
    move_range(&mut mem, 3, 5, 0);
    assert_eq!(mem, vec![Some(8), Some(9), Some(7), Some(0), Some(0)]);
}

#[test]
fn move_of_an_empty_range_changes_nothing() {
    let mut mem: Vec<Option<u32>> = vec![Some(1), None];
    move_range(&mut mem, 1, 1, 0);
    move_range(&mut mem, 0, 0, 0);
    assert_eq!(mem, vec![Some(1), None]);
}

#[test]
fn move_does_not_destroy_what_it_moves() {
    let log = Rc::new(RefCell::new(Vec::new()));
    let mut mem: Vec<Option<Option<Probe>>> = vec![
        Some(Some(Probe { id: 0, log: log.clone() })),
        Some(Some(Probe { id: 1, log: log.clone() })),
        None,
        None,
    ];
    <Option<Probe> as MoveType>::raw_move(&mut mem, 0, 2, 2);
    assert!(log.borrow().is_empty());
    assert!(matches!(mem[0], Some(None)));
    assert!(matches!(mem[1], Some(None)));
    assert_eq!(mem[2].as_ref().unwrap().as_ref().unwrap().id, 0);
    assert_eq!(mem[3].as_ref().unwrap().as_ref().unwrap().id, 1);
}

#[test]
fn copy_as_move_leaves_the_source_unchanged() {
    let mut mem: Vec<Option<Label>> =
        vec![Some(Label("x".to_string())), Some(Label("y".to_string())), None, None];
    <Label as CopyOnlyType>::raw_move(&mut mem, 0, 2, 2);
    assert_eq!(
        mem,
        vec![
            Some(Label("x".to_string())),
            Some(Label("y".to_string())),
            Some(Label("x".to_string())),
            Some(Label("y".to_string())),
        ]
    );
}

#[test]
fn copy_duplicates_into_the_destination() {
    let mut mem: Vec<Option<Label>> =
        vec![None, None, Some(Label("p".to_string())), Some(Label("q".to_string()))];
    <Label as CopyOnlyType>::raw_copy(&mut mem, 2, 4, 0);
    assert_eq!(mem[0], Some(Label("p".to_string())));
    assert_eq!(mem[1], Some(Label("q".to_string())));
    assert_eq!(mem[2], Some(Label("p".to_string())));
    assert_eq!(mem[3], Some(Label("q".to_string())));

    let mut words: Vec<Option<String>> = vec![Some("w".to_string()), None, None];
    <String as CopyMoveType>::raw_copy(&mut words, 0, 1, 2);
    assert_eq!(words, vec![Some("w".to_string()), None, Some("w".to_string())]);
    copy_range(&mut words, 2, 3, 1);
    assert_eq!(words, vec![Some("w".to_string()); 3]);
}

#[test]
fn fill_writes_a_duplicate_to_every_slot_of_the_range() {
    let mut mem: Vec<Option<Label>> = vec![None, None, None, None];
    let value = Label("v".to_string());
    <Label as CopyOnlyType>::raw_fill(&mut mem, 1, 3, &value);
    assert_eq!(mem, vec![None, Some(value.clone()), Some(value.clone()), None]);

    let mut numbers: Vec<Option<u64>> = vec![Some(1), None, None];
    <u64 as CopyMoveType>::raw_fill(&mut numbers, 1, 3, &5);
    assert_eq!(numbers, vec![Some(1), Some(5), Some(5)]);
    fill_range(&mut numbers, 0, 0, &9);
    assert_eq!(numbers, vec![Some(1), Some(5), Some(5)]);
}

#[test]
fn default_uninit_holds_what_it_was_given() {
    let slot = DefaultUninit::new(41u32);
    assert_eq!(slot.assume_init(), 41);
}

#[test]
fn default_uninit_starts_empty_and_is_written_through_its_place() {
    let mut slot: DefaultUninit<String> = DefaultUninit::default();
    assert!(slot.as_mut_ptr().is_none());
    *slot.as_mut_ptr() = Some("late".to_string());
    let copy = slot.clone();
    assert_eq!(slot.assume_init(), "late");
    assert_eq!(copy.assume_init(), "late");
}
