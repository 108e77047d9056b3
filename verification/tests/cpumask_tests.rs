use rvkernel::cpu::CpuId;
use rvkernel::kernel::cpu::cpumask::CpuMask;
use rvkernel::kernel::cpu::cpumask::CpuMaskIter;

fn collect(mut it: CpuMaskIter) -> Vec<usize> {
    let mut v = Vec::new();
    while let Some(c) = it.next() {
        v.push(c.get());
    }
    v
}

#[test]
fn set_test_clear() {
    let mut m = CpuMask::new();
    assert!(m.is_empty());
    assert_eq!(m.count(), 0);
    m.set(CpuId::new(3));
    m.set(CpuId::new(63));
    m.set(CpuId::new(0));
    assert!(m.test(CpuId::new(3)));
    assert!(m.test(CpuId::new(63)));
    assert!(m.test(CpuId::new(0)));
    assert!(!m.test(CpuId::new(4)));
    assert_eq!(m.count(), 3);
    m.set(CpuId::new(3));
    assert_eq!(m.count(), 3);
    m.clear(CpuId::new(3));
    assert!(!m.test(CpuId::new(3)));
    assert_eq!(m.count(), 2);
    m.clear(CpuId::new(3));
    assert_eq!(m.count(), 2);
    assert!(!m.is_empty());
    m.clear_all();
    assert!(m.is_empty());
    assert_eq!(m.count(), 0);
}

#[test]
fn iterate_in_order() {
    let mut m = CpuMask::new();
    for c in [17usize, 2, 40, 63, 0] {
        m.set(CpuId::new(c));
    }
    assert_eq!(collect(m.iter_all()), vec![0, 2, 17, 40, 63]);
}

#[test]
fn iterate_stops_at_limit() {
    let mut m = CpuMask::new();
    for c in [1usize, 3, 5, 7] {
        m.set(CpuId::new(c));
    }
    assert_eq!(collect(CpuMaskIter::new(&m, 4)), vec![1, 3]);
    assert_eq!(collect(CpuMaskIter::new(&m, 0)), Vec::<usize>::new());
}

#[test]
fn iterate_empty() {
    let m = CpuMask::new();
    let mut it = m.iter_all();
    assert_eq!(it.next(), None);
    assert_eq!(it.next(), None);
}

#[test]
fn collect_all_walks_in_order() {
    let mut m = CpuMask::new();
    m.set(CpuId::new(63));
    m.set(CpuId::new(0));
    m.set(CpuId::new(3));
    let v: Vec<usize> = m.collect_all().iter().map(|c| c.get()).collect();
    assert_eq!(v, vec![0, 3, 63]);
    assert_eq!(v.len(), m.count());
    let mut it = m.iter_all();
    assert_eq!(it.next().map(|c| c.get()), Some(0));
    assert_eq!(it.next().map(|c| c.get()), Some(3));
    assert_eq!(it.next().map(|c| c.get()), Some(63));
    assert!(it.next().is_none());
    assert!(it.next().is_none());
    assert!(it.next().is_none());
}
