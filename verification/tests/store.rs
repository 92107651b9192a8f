use intercal::err::ErrCode;
use intercal::store::{Array, Bind, FromU16, ToU16};

#[test]
fn widening_and_narrowing() {
    assert_eq!(<u16 as FromU16>::from_u16(40000), 40000u16);
    assert_eq!(<u32 as FromU16>::from_u16(40000), 40000u32);
    assert_eq!(ToU16::to_u16(40000u16), 40000);
    assert_eq!(ToU16::to_u16(0x0001_0002u32), 2);
}

#[test]
fn assign_is_gated_by_rw() {
    let mut c: Bind<u16> = Bind::new(0);
    assert!(c.rw);
    c.assign(7);
    assert_eq!(c.val, 7);
    c.rw = false;
    c.assign(9);
    assert_eq!(c.val, 7);
    c.rw = true;
    c.assign(9);
    assert_eq!(c.val, 9);
}

#[test]
fn stash_and_retrieve_are_a_stack() {
    let mut c: Bind<u32> = Bind::new(1);
    c.stash();
    c.assign(2);
    c.rw = false;
    c.stash();
    c.rw = true;
    c.assign(3);
    c.stash();
    c.assign(4);
    assert_eq!(c.stack.len(), 3);
    c.retrieve().unwrap();
    assert_eq!((c.val, c.rw), (3, true));
    c.retrieve().unwrap();
    assert_eq!((c.val, c.rw), (2, false));
    c.retrieve().unwrap();
    assert_eq!((c.val, c.rw), (1, true));
    assert_eq!(c.stack.len(), 0);
}

#[test]
fn retrieve_without_stash_fails() {
    let mut c: Bind<u16> = Bind::new(5);
    let e = c.retrieve().unwrap_err();
    assert_eq!(e.code, ErrCode::IE436);
    assert_eq!((c.val, c.rw), (5, true));
}

#[test]
fn dimension_clears_the_array() {
    let mut a: Bind<Array<u16>> = Bind::new(Array::empty());
    a.dimension(vec![2, 3]).unwrap();
    assert_eq!(a.val.dims, vec![2, 3]);
    assert_eq!(a.val.elems, vec![0u16; 6]);
    a.arr_assign(&vec![2, 3], 9).unwrap();
    assert_eq!(a.arr_lookup(&vec![2, 3]).unwrap(), 9);
    a.dimension(vec![4]).unwrap();
    assert_eq!(a.val.dims, vec![4]);
    assert_eq!(a.val.elems, vec![0u16; 4]);
}

#[test]
fn dimension_rejects_a_zero() {
    let mut a: Bind<Array<u32>> = Bind::new(Array::empty());
    a.dimension(vec![3]).unwrap();
    let e = a.dimension(vec![2, 0, 5]).unwrap_err();
    assert_eq!(e.code, ErrCode::IE240);
    assert_eq!(a.val.dims, vec![3]);
    assert_eq!(a.val.elems.len(), 3);
}

#[test]
fn dimension_rejects_what_cannot_be_counted() {
    let mut a: Bind<Array<u16>> = Bind::new(Array::empty());
    let e = a.dimension(vec![usize::MAX, 2]).unwrap_err();
    assert_eq!(e.code, ErrCode::IE666);
    assert_eq!(a.val.dims.len(), 0);
}

#[test]
fn subscripts_are_row_major_and_count_from_one() {
    let mut a: Bind<Array<u32>> = Bind::new(Array::empty());
    a.dimension(vec![2, 3]).unwrap();
    let mut n = 0u32;
    for i in 1..=2usize {
        for j in 1..=3usize {
            n += 1;
            a.arr_assign(&vec![i, j], n).unwrap();
        }
    }
    assert_eq!(a.val.elems, vec![1, 2, 3, 4, 5, 6]);
    assert_eq!(a.arr_lookup(&vec![1, 1]).unwrap(), 1);
    assert_eq!(a.arr_lookup(&vec![1, 3]).unwrap(), 3);
    assert_eq!(a.arr_lookup(&vec![2, 1]).unwrap(), 4);
    assert_eq!(a.val.locate(&vec![2, 2]), Some(4));
}

#[test]
fn subscripts_out_of_range_fail() {
    let mut a: Bind<Array<u16>> = Bind::new(Array::empty());
    assert_eq!(a.arr_lookup(&vec![1]).unwrap_err().code, ErrCode::IE241);
    assert_eq!(a.arr_lookup(&vec![]).unwrap_err().code, ErrCode::IE241);
    a.dimension(vec![2, 3]).unwrap();
    assert_eq!(a.arr_lookup(&vec![0, 1]).unwrap_err().code, ErrCode::IE241);
    assert_eq!(a.arr_lookup(&vec![3, 1]).unwrap_err().code, ErrCode::IE241);
    assert_eq!(a.arr_lookup(&vec![1, 4]).unwrap_err().code, ErrCode::IE241);
    assert_eq!(a.arr_lookup(&vec![1]).unwrap_err().code, ErrCode::IE241);
    assert_eq!(a.arr_lookup(&vec![1, 1, 1]).unwrap_err().code, ErrCode::IE241);
    assert_eq!(a.arr_assign(&vec![3, 3], 1).unwrap_err().code, ErrCode::IE241);
    a.rw = false;
    assert_eq!(a.arr_assign(&vec![3, 3], 1).unwrap_err().code, ErrCode::IE241);
}

#[test]
fn an_ignored_array_keeps_its_elements() {
    let mut a: Bind<Array<u16>> = Bind::new(Array::empty());
    a.dimension(vec![2]).unwrap();
    a.arr_assign(&vec![1], 5).unwrap();
    a.rw = false;
    a.arr_assign(&vec![1], 6).unwrap();
    assert_eq!(a.arr_lookup(&vec![1]).unwrap(), 5);
}

#[test]
fn arrays_are_stashed_whole() {
    let mut a: Bind<Array<u16>> = Bind::new(Array::empty());
    a.dimension(vec![2]).unwrap();
    a.arr_assign(&vec![1], 5).unwrap();
    a.stash();
    a.dimension(vec![3]).unwrap();
    a.arr_assign(&vec![3], 8).unwrap();
    a.retrieve().unwrap();
    assert_eq!(a.val.dims, vec![2]);
    assert_eq!(a.val.elems, vec![5, 0]);
}

#[test]
fn readout_writes_differences() {
    let mut a: Bind<Array<u16>> = Bind::new(Array::empty());
    a.dimension(vec![3]).unwrap();
    a.arr_assign(&vec![1], 10).unwrap();
    a.arr_assign(&vec![2], 300).unwrap();
    a.arr_assign(&vec![3], 7).unwrap();
    let mut state = 0u8;
    let mut out = vec![1u8];
    a.readout(&mut state, &mut out);
    // 0 - 10, 10 - 44, 44 - 7, all modulo 256
    assert_eq!(out, vec![1, 246, 222, 37]);
    assert_eq!(state, 7);
    let mut more = Vec::new();
    a.readout(&mut state, &mut more);
    assert_eq!(more, vec![253, 222, 37]);
}

#[test]
fn writein_reads_differences() {
    let mut a: Bind<Array<u32>> = Bind::new(Array::empty());
    a.dimension(vec![4]).unwrap();
    let input = vec![246u8, 222, 37];
    let mut state = 0u8;
    let mut pos = 0usize;
    a.writein(&mut state, &input, &mut pos);
    // the fourth element meets the end of the input and repeats the third
    assert_eq!(a.val.elems, vec![10, 44, 7, 7]);
    assert_eq!(state, 7);
    assert_eq!(pos, 3);
}

#[test]
fn writein_takes_back_what_readout_wrote() {
    let mut a: Bind<Array<u16>> = Bind::new(Array::empty());
    a.dimension(vec![5]).unwrap();
    let values = [72u16, 101, 108, 108, 111];
    for (i, v) in values.iter().enumerate() {
        a.arr_assign(&vec![i + 1], *v).unwrap();
    }
    let mut out = Vec::new();
    let mut last_out = 0u8;
    a.readout(&mut last_out, &mut out);
    let mut b: Bind<Array<u16>> = Bind::new(Array::empty());
    b.dimension(vec![5]).unwrap();
    let mut last_in = 0u8;
    let mut pos = 0usize;
    b.writein(&mut last_in, &out, &mut pos);
    assert_eq!(b.val.elems, a.val.elems);
    assert_eq!(pos, 5);
}

#[test]
fn writein_into_an_ignored_array_consumes_the_input() {
    let mut a: Bind<Array<u16>> = Bind::new(Array::empty());
    a.dimension(vec![2]).unwrap();
    a.rw = false;
    let input = vec![255u8, 255, 255];
    let mut state = 0u8;
    let mut pos = 0usize;
    a.writein(&mut state, &input, &mut pos);
    assert_eq!(a.val.elems, vec![0, 0]);
    assert_eq!(pos, 2);
    assert_eq!(state, 2);
}
