use memprims::nvec::NVec;

struct DropCounter {
    drops: std::rc::Rc<std::cell::Cell<u32>>,
}

impl Drop for DropCounter {
    fn drop(&mut self) {
        self.drops.set(self.drops.get() + 1);
    }
}

#[test]
fn base_test() {
    let mut vec = NVec::new();
    for i in 1..=20 {
        vec.push(i);
        assert_eq!(vec.get(i - 1), Some(&i));
    }

    assert_eq!(vec.capacity(), 32);
    assert_eq!(vec.len(), 20);
}

#[test]
fn empty_buffer() {
    let vec: NVec<u32> = NVec::new();
    assert_eq!(vec.len(), 0);
    assert_eq!(vec.capacity(), 0);
    assert_eq!(vec.get(0), None);
}

#[test]
fn get_out_of_range() {
    let mut vec = NVec::new();
    vec.push(5);
    vec.push(6);
    assert_eq!(vec.get(0), Some(&5));
    assert_eq!(vec.get(1), Some(&6));
    assert_eq!(vec.get(2), None);
    assert_eq!(vec.get(1000), None);
}

#[test]
fn capacity_steps() {
    let mut vec = NVec::new();
    let expected: Vec<(usize, usize)> = vec![
        (1, 4),
        (2, 4),
        (3, 4),
        (4, 4),
        (5, 8),
        (6, 8),
        (7, 8),
        (8, 8),
        (9, 16),
    ];
    for (n, cap) in expected {
        vec.push(n);
        assert_eq!(vec.len(), n);
        assert_eq!(vec.capacity(), cap);
    }
}

#[test]
fn capacity_after_thousand() {
    let mut vec = NVec::new();
    for i in 1..=1000 {
        vec.push(i)
    }

    assert_eq!(vec.capacity(), 1024);
    assert_eq!(vec.len(), 1000);
}

#[test]
fn drops_each_element_once() {
    let drops = std::rc::Rc::new(std::cell::Cell::new(0));
    {
        let mut vec = NVec::new();
        for _ in 0..7 {
            vec.push(DropCounter { drops: std::rc::Rc::clone(&drops) });
        }
        assert_eq!(drops.get(), 0);
    }
    assert_eq!(drops.get(), 7);
}
