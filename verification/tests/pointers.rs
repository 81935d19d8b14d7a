use memprims::cell::Cell;
use memprims::rc::Rc;
use memprims::refcell::RefCell;

struct DropCounter {
    drops: std::rc::Rc<std::cell::Cell<u32>>,
}

impl Drop for DropCounter {
    fn drop(&mut self) {
        self.drops.set(self.drops.get() + 1);
    }
}

#[test]
fn cell_round_trip() {
    let mut c = Cell::new(42);
    assert_eq!(c.get(), 42);
    c.set(7);
    assert_eq!(c.get(), 7);
    let old = c.replace(9);
    assert_eq!(old, 7);
    assert_eq!(c.get(), 9);
}

#[test]
fn cell_replace_non_copyable() {
    let mut c = Cell::new(String::from("hello"));
    let old = c.replace(String::from("world"));
    assert_eq!(old, "hello");
    let current = c.replace(String::new());
    assert_eq!(current, "world");
}

#[test]
fn rc_shares_value() {
    let first = Rc::new(41);
    let second = first.clone();
    assert_eq!(*first.get(), 41);
    assert_eq!(*second.get(), 41);
}

#[test]
fn rc_lives_until_last_handle() {
    let drops = std::rc::Rc::new(std::cell::Cell::new(0));
    let first = Rc::new(DropCounter { drops: std::rc::Rc::clone(&drops) });
    let mut handles = Vec::new();
    for _ in 0..4 {
        handles.push(first.clone());
    }
    drop(first);
    assert_eq!(drops.get(), 0);
    while let Some(handle) = handles.pop() {
        assert_eq!(drops.get(), 0);
        drop(handle);
    }
    assert_eq!(drops.get(), 1);
}

#[test]
fn refcell_exclusive_excludes_everything() {
    let mut cell = RefCell::new(10);
    let guard = cell.borrow_mut().unwrap();
    assert!(cell.borrow().is_none());
    assert!(cell.borrow_mut().is_none());
    cell.release_mut(guard);
    let shared = cell.borrow();
    assert!(shared.is_some());
    cell.release(shared.unwrap());
}

#[test]
fn refcell_shared_counting() {
    let mut cell = RefCell::new(5);
    let g1 = cell.borrow().unwrap();
    let g2 = cell.borrow().unwrap();
    let g3 = cell.borrow().unwrap();
    assert!(cell.borrow_mut().is_none());
    cell.release(g1);
    assert!(cell.borrow_mut().is_none());
    cell.release(g2);
    assert!(cell.borrow_mut().is_none());
    cell.release(g3);
    let exclusive = cell.borrow_mut();
    assert!(exclusive.is_some());
    cell.release_mut(exclusive.unwrap());
}

#[test]
fn refcell_read_and_write() {
    let mut cell = RefCell::new(1);
    let guard = cell.borrow_mut().unwrap();
    *cell.get_mut(&guard) = 99;
    assert_eq!(*cell.read_mut(&guard), 99);
    cell.release_mut(guard);
    let shared = cell.borrow().unwrap();
    assert_eq!(*cell.read(&shared), 99);
    cell.release(shared);
}
