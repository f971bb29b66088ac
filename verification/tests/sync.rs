use sparreal::sync::{next_spin_count, IrqRawSpinlock};

#[test]
fn test_irq_raw_spinlock_creation() {
    let spinlock = IrqRawSpinlock::new();
    assert!(!spinlock.is_locked());
}

#[test]
fn test_irq_raw_spinlock_default() {
    let spinlock = IrqRawSpinlock::default();
    assert!(!spinlock.is_locked());
}

#[test]
fn test_irq_raw_spinlock_try_lock() {
    let spinlock = IrqRawSpinlock::new();

    assert!(spinlock.try_lock());
    assert!(spinlock.is_locked());

    assert!(!spinlock.try_lock());

    spinlock.unlock();
    assert!(!spinlock.is_locked());

    assert!(spinlock.try_lock());
    spinlock.unlock();
}

#[test]
fn spin_count_wraps_every_4096() {
    assert_eq!(next_spin_count(0), 1);
    assert_eq!(next_spin_count(4094), 4095);
    assert_eq!(next_spin_count(4095), 0);
    assert_eq!(next_spin_count(u32::MAX), 0);
}
