use sensor_fuse::callback::vec_box::{Function, VecBoxManager};
use sensor_fuse::callback::{
    execute_callbacks, AccessStrategyImmut, AccessStrategyMut, ExecManager, ExecManagerMut,
    ExecRegister, ExecRegisterMut, ExecutionStrategy, RegistrationStrategy,
};
use sensor_fuse::callback_manager::standard::{
    AsyncVecBoxManager, VecBoxManager as StandardManager,
};
use sensor_fuse::callback_manager::{
    CallbackManager, ExecData, ExecGuard, ExecGuardMut, ExecLock, Oneshot,
};
use sensor_fuse::executor::standard::{Data, StdExec, WakerList};
use sensor_fuse::executor::ExecManager as Executor;
use sensor_fuse::executor::ExecRegister as ExecutorRegister;
use sensor_fuse::lock::{DataReadLock, FalseReadLock, OwnedFalseLock};
use std::cell::{Cell, RefCell};
use std::marker::PhantomData;
use std::rc::Rc;

type Callback = Box<dyn FnMut(&i32) -> bool>;

fn waking<'v>(
    log: &Rc<RefCell<Vec<usize>>>,
    value: &'v i32,
) -> impl FnOnce(Vec<usize>) -> &'v i32 {
    let log = log.clone();
    move |wakers| {
        log.borrow_mut().extend(wakers);
        value
    }
}

fn logging(log: &Rc<RefCell<Vec<usize>>>, id: usize, left: usize) -> Callback {
    let log = log.clone();
    let mut left = left;
    Box::new(move |_| {
        log.borrow_mut().push(id);
        left -= 1;
        left > 0
    })
}

#[test]
fn callbacks_that_return_false_leave() {
    let log = Rc::new(RefCell::new(Vec::new()));
    let mut callbacks: Vec<Callback> = vec![
        logging(&log, 0, 9),
        logging(&log, 1, 1),
        logging(&log, 2, 9),
        logging(&log, 3, 9),
        logging(&log, 4, 1),
    ];
    execute_callbacks(&mut callbacks, &0);
    assert_eq!(*log.borrow(), vec![0, 1, 4, 3, 2]);
    log.borrow_mut().clear();
    execute_callbacks(&mut callbacks, &0);
    assert_eq!(*log.borrow(), vec![0, 3, 2]);
}

#[test]
fn callbacks_that_return_true_stay_in_order() {
    let log = Rc::new(RefCell::new(Vec::new()));
    let mut callbacks: Vec<Callback> = (0..4).map(|id| logging(&log, id, 3)).collect();
    execute_callbacks(&mut callbacks, &0);
    execute_callbacks(&mut callbacks, &0);
    assert_eq!(*log.borrow(), vec![0, 1, 2, 3, 0, 1, 2, 3]);
    execute_callbacks(&mut callbacks, &0);
    assert!(callbacks.is_empty());
}

#[test]
fn vec_box_manager_wakes_then_calls() {
    let log = Rc::new(RefCell::new(Vec::new()));
    let mut manager: VecBoxManager<Callback, usize> = VecBoxManager::new();
    manager.register(Function(logging(&log, 1, 2)));
    manager.register(&100);
    manager.register(&101);
    manager.execute(waking(&log, &0));
    assert_eq!(*log.borrow(), vec![100, 101, 1]);
    manager.execute(waking(&log, &0));
    assert_eq!(*log.borrow(), vec![100, 101, 1, 1]);
    manager.execute(waking(&log, &0));
    assert_eq!(*log.borrow(), vec![100, 101, 1, 1]);
    assert!(VecBoxManager::<Callback, usize>::default().callbacks.is_empty());
}

#[test]
fn callbacks_get_the_value() {
    let sum = Rc::new(Cell::new(0));
    let own = sum.clone();
    let mut manager: StandardManager<Callback, usize> = StandardManager::new();
    let add: Callback = Box::new(move |v| {
        own.set(own.get() + *v);
        *v < 10
    });
    CallbackManager::<i32, Callback, usize>::register(&mut manager, add);
    manager.callback(|_: Vec<usize>| &3);
    manager.callback(|_: Vec<usize>| &10);
    manager.callback(|_: Vec<usize>| &5);
    assert_eq!(sum.get(), 13);
}

#[test]
fn standard_manager_wakes_each_waker_once() {
    let log = Rc::new(RefCell::new(Vec::new()));
    let mut manager: StandardManager<Callback, usize> = StandardManager::default();
    CallbackManager::<i32, Callback, usize>::register(&mut manager, logging(&log, 1, 9));
    CallbackManager::<i32, Callback, usize>::register_waker(&mut manager, &4);
    CallbackManager::<i32, Callback, usize>::register_waker(&mut manager, &5);
    manager.callback(waking(&log, &0));
    manager.callback(waking(&log, &0));
    assert_eq!(*log.borrow(), vec![4, 5, 1, 1]);
}

#[test]
fn oneshots_wake_once() {
    let mut woken = Vec::new();
    let mut oneshot = Oneshot::new(&7);
    assert!(!oneshot.call(&mut |waker: i32| woken.push(waker)));
    assert!(!oneshot.call(&mut |waker: i32| woken.push(waker)));
    assert_eq!(woken, vec![7]);
}

#[test]
fn async_manager_is_empty_at_first() {
    assert!(AsyncVecBoxManager::<Callback>::new().0.is_empty());
    assert!(AsyncVecBoxManager::<Callback>::default().0.is_empty());
}

struct Counter(Cell<i32>);

impl ExecManager<i32> for Counter {
    fn execute(&self, value: &i32) {
        self.0.set(self.0.get() + *value);
    }
}

impl ExecRegister<i32> for Counter {
    fn register(&self, x: i32) {
        self.0.set(self.0.get() + 100 * x);
    }
}

#[test]
fn immutable_access() {
    let mut strategy = AccessStrategyImmut(Counter(Cell::new(0)), PhantomData);
    strategy.execute(|_: Vec<usize>| &3);
    RegistrationStrategy::<i32, usize, i32>::register(&mut strategy, 2);
    assert_eq!(strategy.0 .0.get(), 203);
}

#[test]
fn mutable_access() {
    let log = Rc::new(RefCell::new(Vec::new()));
    let manager: VecBoxManager<Callback, usize> = VecBoxManager::new();
    let mut strategy: AccessStrategyMut<i32, usize, _> = AccessStrategyMut(manager, PhantomData);
    strategy.register(Function(logging(&log, 1, 1)));
    strategy.register(&5);
    strategy.execute(waking(&log, &0));
    strategy.execute(waking(&log, &0));
    assert_eq!(*log.borrow(), vec![5, 1]);
}

#[test]
fn nothing_is_executed_without_a_manager() {
    ExecManagerMut::execute(&mut (), |wakers: Vec<usize>| {
        assert!(wakers.is_empty());
        &1
    });
    Executor::execute(&(), &1);
}

#[test]
fn executor_calls_functions_and_wakes_the_latest_first_after_the_commit() {
    let log = Rc::new(RefCell::new(Vec::new()));
    let mut exec: StdExec<i32, Callback, usize> = StdExec::new();
    assert!(exec.register(|| Some(&101)));
    assert!(exec.register(|| Some(&102)));
    assert!(!exec.register(|| None::<&usize>));
    assert!(exec.register(|| Some(Function(logging(&log, 1, 2)))));
    assert!(exec.register(|| Some(Function(logging(&log, 2, 1)))));
    assert!(!exec.register(|| None::<Function<Callback>>));
    let value = 5;
    for _ in 0..3 {
        let woken = exec.execute(|| {
            log.borrow_mut().push(0);
            &value
        });
        log.borrow_mut().extend(woken);
    }
    assert_eq!(*log.borrow(), vec![0, 1, 2, 102, 101, 0, 1, 0]);
}

#[test]
fn executor_functions_get_the_committed_value() {
    let sum = Rc::new(Cell::new(0));
    let own = sum.clone();
    let add: Callback = Box::new(move |v| {
        own.set(own.get() + *v);
        true
    });
    let mut exec: StdExec<i32, Callback, usize> = StdExec::new();
    assert!(exec.register(|| Some(Function(add))));
    assert!(exec.execute(|| Box::new(3)).is_empty());
    assert!(exec.execute(|| Box::new(4)).is_empty());
    assert_eq!(sum.get(), 7);
}

#[test]
fn callbacks_are_not_called_after_they_returned_false() {
    let log = Rc::new(RefCell::new(Vec::new()));
    let mut manager: VecBoxManager<Callback, usize> = VecBoxManager::new();
    for (id, left) in [(0, 3), (1, 1), (2, 9), (3, 2)] {
        manager.register(Function(logging(&log, id, left)));
    }
    manager.register(&100);
    let mut runs = Vec::new();
    for _ in 0..4 {
        manager.execute(waking(&log, &0));
        let mut run: Vec<usize> = log.borrow_mut().drain(..).collect();
        run.sort();
        runs.push(run);
    }
    assert_eq!(
        runs,
        vec![vec![0, 1, 2, 3, 100], vec![0, 2, 3], vec![0, 2], vec![2]]
    );
}

#[test]
fn waker_lists_are_drained_latest_first() {
    let mut list: WakerList<char> = WakerList::new();
    list.add_waker('a');
    list.add_waker('b');
    let mut drained = list.drain();
    list.add_waker('c');
    assert_eq!(drained.next(), Some('b'));
    assert_eq!(drained.next(), Some('a'));
    assert_eq!(drained.next(), None);
    list.add_waker('d');
    assert_eq!(list.drain().collect(), vec!['d', 'c']);
    assert_eq!(list.drain().next(), None);
}

#[test]
fn executor_data_is_empty_at_first() {
    let data: Data<Callback, usize> = Data::new();
    assert!(data.callbacks_in.is_empty());
    assert!(data.callbacks_out.is_empty());
    assert!(data.wakers_in.is_empty());
    assert!(data.wakers_out.is_empty());
}

#[test]
fn false_locks_give_their_value() {
    let mut lock = FalseReadLock(3);
    *lock.deref_mut() += 1;
    let lock = lock.clone();
    assert_eq!(*lock, 4);
    assert_eq!(*lock.read(), 4);
    assert_eq!(lock.try_read(), Some(&4));
    let owned = OwnedFalseLock::<i32>::new();
    let _ = (owned, owned.clone(), OwnedFalseLock::<i32>::default());
}

#[test]
fn exec_locks_hide_the_manager() {
    let data = ExecData {
        exec_manager: (),
        data: 3,
    };
    let mut lock = ExecLock::new(FalseReadLock(data));
    assert_eq!(*lock.read(), 3);
    assert_eq!(*lock.try_read().unwrap(), 3);
    *lock.deref_mut().0.deref_mut() = 4;
    assert_eq!(*lock.0, 4);
    let mut data = ExecData {
        exec_manager: 'x',
        data: 5,
    };
    assert_eq!(*ExecGuard::new(&data), 5);
    let mut guard = ExecGuardMut::new(&mut data);
    assert_eq!(*guard, 5);
    *guard.deref_mut() = 6;
    assert_eq!(*data, 6);
    assert_eq!(data.exec_manager, 'x');
}
