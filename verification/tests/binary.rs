use arceboot::binary::{CounterMask, Error, HartMask, Physical, SbiRet, SharedPtr};

#[test]
fn binary_rustsbi_hart_mask() {
    let mask = HartMask::from_mask_base(0b1, 400);
    assert!(!mask.has_bit(0));
    assert!(mask.has_bit(400));
    assert!(!mask.has_bit(401));
    let mask = HartMask::from_mask_base(0b110, 500);
    assert!(!mask.has_bit(0));
    assert!(!mask.has_bit(500));
    assert!(mask.has_bit(501));
    assert!(mask.has_bit(502));
    assert!(!mask.has_bit(500 + (usize::BITS as usize)));
    let max_bit = 1 << (usize::BITS - 1);
    let mask = HartMask::from_mask_base(max_bit, 600);
    assert!(mask.has_bit(600 + (usize::BITS as usize) - 1));
    assert!(!mask.has_bit(600 + (usize::BITS as usize)));
    let mask = HartMask::from_mask_base(0b11, usize::MAX - 1);
    assert!(!mask.has_bit(usize::MAX - 2));
    assert!(mask.has_bit(usize::MAX - 1));
    assert!(mask.has_bit(usize::MAX));
    assert!(!mask.has_bit(0));
    // hart_mask_base == usize::MAX is special, it means hart_mask should be ignored
    // and this hart mask contains all harts available
    let mask = HartMask::from_mask_base(0, usize::MAX);
    for i in 0..5 {
        assert!(mask.has_bit(i));
    }
    assert!(mask.has_bit(usize::MAX));
}

#[test]
fn rustsbi_counter_index_mask() {
    let mask = CounterMask::from_mask_base(0b1, 400);
    assert!(!mask.has_bit(0));
    assert!(mask.has_bit(400));
    assert!(!mask.has_bit(401));
    let mask = CounterMask::from_mask_base(0b110, 500);
    assert!(!mask.has_bit(0));
    assert!(!mask.has_bit(500));
    assert!(mask.has_bit(501));
    assert!(mask.has_bit(502));
    assert!(!mask.has_bit(500 + (usize::BITS as usize)));
    let max_bit = 1 << (usize::BITS - 1);
    let mask = CounterMask::from_mask_base(max_bit, 600);
    assert!(mask.has_bit(600 + (usize::BITS as usize) - 1));
    assert!(!mask.has_bit(600 + (usize::BITS as usize)));
    let mask = CounterMask::from_mask_base(0b11, usize::MAX - 1);
    assert!(!mask.has_bit(usize::MAX - 2));
    assert!(mask.has_bit(usize::MAX - 1));
    assert!(mask.has_bit(usize::MAX));
    assert!(!mask.has_bit(0));
    let mask = CounterMask::from_mask_base(0, usize::MAX);
    let null_mask = CounterMask::from_mask_base(0, 0);
    for i in 0..=usize::BITS as usize {
        assert!(mask.has_bit(i));
        assert!(!null_mask.has_bit(i));
    }
    assert!(mask.has_bit(usize::MAX));
}

#[test]
fn sbi_ret_error_codes() {
    assert_eq!(SbiRet::success(5), SbiRet { error: 0, value: 5 });
    assert_eq!(SbiRet::failed().error, usize::MAX);
    assert_eq!(SbiRet::not_supported().error, usize::MAX - 1);
    assert_eq!(SbiRet::invalid_param().error, usize::MAX - 2);
    assert_eq!(SbiRet::denied().error, usize::MAX - 3);
    assert_eq!(SbiRet::invalid_address().error, usize::MAX - 4);
    assert_eq!(SbiRet::already_available().error, usize::MAX - 5);
    assert_eq!(SbiRet::already_started().error, usize::MAX - 6);
    assert_eq!(SbiRet::already_stopped().error, usize::MAX - 7);
    assert_eq!(SbiRet::no_shmem().error, usize::MAX - 8);
}

#[test]
fn sbi_ret_into_result() {
    assert_eq!(SbiRet::success(9).into_result(), Ok(9));
    assert_eq!(SbiRet::failed().into_result(), Err(Error::Failed));
    assert_eq!(SbiRet::not_supported().into_result(), Err(Error::NotSupported));
    assert_eq!(SbiRet::invalid_param().into_result(), Err(Error::InvalidParam));
    assert_eq!(SbiRet::denied().into_result(), Err(Error::Denied));
    assert_eq!(SbiRet::invalid_address().into_result(), Err(Error::InvalidAddress));
    assert_eq!(SbiRet::already_available().into_result(), Err(Error::AlreadyAvailable));
    assert_eq!(SbiRet::already_started().into_result(), Err(Error::AlreadyStarted));
    assert_eq!(SbiRet::already_stopped().into_result(), Err(Error::AlreadyStopped));
    assert_eq!(SbiRet::no_shmem().into_result(), Err(Error::NoShmem));
    assert_eq!(SbiRet { error: 1234, value: 0 }.into_result(), Err(Error::Custom(1234)));
}

#[test]
fn sbi_ret_combinators() {
    let ok = SbiRet::success(3);
    let err = SbiRet::denied();
    assert!(ok.is_ok() && !ok.is_err());
    assert!(err.is_err() && !err.is_ok());
    assert!(ok.is_ok_and(|v| v == 3));
    assert!(!err.is_ok_and(|v| v == 3));
    assert!(err.is_err_and(|e| e == Error::Denied));
    assert_eq!(ok.ok(), Some(3));
    assert_eq!(err.ok(), None);
    assert_eq!(err.err(), Some(Error::Denied));
    assert_eq!(ok.map(|v| v * 2), Ok(6));
    assert_eq!(err.map(|v| v * 2), Err(Error::Denied));
    assert_eq!(ok.map_or(0, |v| v + 1), 4);
    assert_eq!(err.map_or(0, |v| v + 1), 0);
    assert_eq!(err.map_or_else(|_| 7, |v| v), 7);
    assert_eq!(err.map_err(|_| 1u8), Err(1u8));
    assert_eq!(ok.unwrap(), 3);
    assert_eq!(ok.expect("value"), 3);
    assert_eq!(err.unwrap_err(), Error::Denied);
    assert_eq!(err.expect_err("error"), Error::Denied);
    assert_eq!(ok.and(Ok::<u8, Error>(1)), Ok(1));
    assert_eq!(err.and(Ok::<u8, Error>(1)), Err(Error::Denied));
    assert_eq!(ok.and_then(|v| Ok::<usize, Error>(v + 10)), Ok(13));
    assert_eq!(err.or(Ok::<usize, u8>(8)), Ok(8));
    assert_eq!(ok.or(Err::<usize, u8>(8)), Ok(3));
    assert_eq!(err.or_else(|_| Ok::<usize, u8>(2)), Ok(2));
    assert_eq!(err.unwrap_or(11), 11);
    assert_eq!(ok.unwrap_or(11), 3);
    assert_eq!(err.unwrap_or_else(|_| 12), 12);
    assert_eq!(ok.inspect(|_| {}), ok);
    assert_eq!(err.inspect_err(|_| {}), err);
}

#[test]
fn physical_and_shared_ptr_fields() {
    let p: Physical<&[u8]> = Physical::new(16, 0x8000, 0x1);
    assert_eq!(p.num_bytes(), 16);
    assert_eq!(p.phys_addr_lo(), 0x8000);
    assert_eq!(p.phys_addr_hi(), 0x1);
    let s: SharedPtr<[u8; 8]> = SharedPtr::new(0x9000, 0x2);
    assert_eq!(s.phys_addr_lo(), 0x9000);
    assert_eq!(s.phys_addr_hi(), 0x2);
    let m = HartMask::from_mask_base(0b101, 3);
    assert_eq!(m.into_inner(), (0b101, 3));
    assert_eq!(m.ignore_mask(), usize::MAX);
    let c = CounterMask::from_mask_base(0b1, 2);
    assert_eq!(c.into_inner(), (0b1, 2));
    assert_eq!(c.ignore_mask(), usize::MAX);
}

#[test]
fn binary_inspect_runs_closure_on_its_side() {
    let mut seen = Vec::new();
    let r = SbiRet::success(512).inspect(|v| seen.push(*v));
    assert_eq!(r, SbiRet::success(512));
    assert_eq!(seen, vec![512]);
    let mut errs = Vec::new();
    let r = SbiRet::invalid_param().inspect(|v| errs.push(*v));
    assert_eq!(r, SbiRet::invalid_param());
    assert!(errs.is_empty());
    let mut seen_err = Vec::new();
    let r = SbiRet::invalid_param().inspect_err(|e| seen_err.push(*e));
    assert_eq!(r, SbiRet::invalid_param());
    assert_eq!(seen_err, vec![Error::InvalidParam]);
    let mut none = Vec::new();
    let _ = SbiRet::success(1).inspect_err(|e| none.push(*e));
    assert!(none.is_empty());
}
