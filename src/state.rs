use vstd::prelude::*;

verus! {

/// A mutable reactive cell.
///
/// Listeners are handles chosen by the subscriber. After every committed
/// mutation the cell hands back its notification schedule: every subscribed
/// handle once, in subscription order. The caller runs the listeners behind
/// those handles, so each of them observes the value already committed.
pub struct Signal<T> {
    value: T,
    listeners: Vec<usize>,
}

impl<T> Signal<T> {
    /// The committed value.
    pub closed spec fn value(&self) -> T {
        self.value
    }

    /// The subscribed listener handles, in subscription order.
    pub closed spec fn listeners(&self) -> Seq<usize> {
        self.listeners@
    }

    /// One update by `g`: the value becomes `g` of the old one, the listeners
    /// stay, and the schedule is every listener once, in subscription order.
    pub open spec fn updated(pre: Self, post: Self, g: spec_fn(T) -> T, notified: Seq<usize>) -> bool {
        &&& post.value() == g(pre.value())
        &&& post.listeners() == pre.listeners()
        &&& notified == pre.listeners()
    }

    pub fn new(value: T) -> (s: Self)
        ensures
            s.value() == value,
            s.listeners() == Seq::<usize>::empty(),
    {
        Signal { value, listeners: Vec::new() }
    }

    pub fn get(&self) -> (r: T)
        where
            T: Clone,
        ensures
            cloned(self.value(), r),
    {
        self.value.clone()
    }

    /// Replaces the value by `f` of the current one, then returns the
    /// notification schedule. A memo derived from this signal is recomputed
    /// in the same call by `update_and_recompute`.
    pub fn update<F>(&mut self, f: F) -> (notified: Vec<usize>)
        where
            F: FnOnce(&T) -> T,
        requires
            f.requires((&old(self).value(),)),
        ensures
            f.ensures((&old(self).value(),), final(self).value()),
            final(self).listeners() == old(self).listeners(),
            notified@ == old(self).listeners(),
            forall|g: spec_fn(T) -> T|
                #![trigger computes(f, g)]
                computes(f, g) ==> Self::updated(*old(self), *final(self), g, notified@),
    {
        let next = f(&self.value);
        self.value = next;
        self.notify()
    }

    /// Appends a listener handle; it is notified after every later update.
    pub fn subscribe(&mut self, listener: usize)
        ensures
            final(self).value() == old(self).value(),
            final(self).listeners() == old(self).listeners().push(listener),
    {
        self.listeners.push(listener);
    }

    /// The notification schedule: every listener handle once, in
    /// subscription order.
    pub fn notify(&self) -> (notified: Vec<usize>)
        ensures
            notified@ == self.listeners(),
    {
        let mut out: Vec<usize> = Vec::new();
        let mut i: usize = 0;
        while i < self.listeners.len()
            invariant
                i <= self.listeners@.len(),
                out@ == self.listeners@.take(i as int),
            decreases self.listeners@.len() - i,
        {
            out.push(self.listeners[i]);
            i = i + 1;
            assert(out@ =~= self.listeners@.take(i as int));
        }
        assert(out@ =~= self.listeners@);
        out
    }
}

/// `f` computes the function `g`: whatever it returns on `a` is `g(a)`.
pub open spec fn computes<A, B, F: FnOnce(&A) -> B>(f: F, g: spec_fn(A) -> B) -> bool {
    forall|a: A, b: B| #[trigger] f.ensures((&a,), b) ==> b == g(a)
}

/// The value reached from `v` by applying the functions of `fs` in order.
pub open spec fn fold_updates<T>(v: T, fs: Seq<spec_fn(T) -> T>) -> T
    decreases fs.len(),
{
    if fs.len() == 0 {
        v
    } else {
        (fs.last())(fold_updates(v, fs.drop_last()))
    }
}

/// After any run of updates, the value is the fold of the update functions
/// over the starting value, the listeners are unchanged, and every update
/// notified each listener exactly once, in subscription order.
pub proof fn law_update_fold<T>(
    states: Seq<Signal<T>>,
    fs: Seq<spec_fn(T) -> T>,
    schedules: Seq<Seq<usize>>,
)
    requires
        states.len() == fs.len() + 1,
        schedules.len() == fs.len(),
        forall|i: int|
            0 <= i < fs.len() ==> #[trigger] Signal::updated(
                states[i],
                states[i + 1],
                fs[i],
                schedules[i],
            ),
    ensures
        states.last().value() == fold_updates(states[0].value(), fs),
        states.last().listeners() == states[0].listeners(),
        forall|i: int| 0 <= i < schedules.len() ==> #[trigger] schedules[i] == states[0].listeners(),
    decreases fs.len(),
{
    if fs.len() > 0 {
        let n = fs.len() - 1;
        assert(Signal::updated(states[n], states[n + 1], fs[n], schedules[n]));
        law_update_fold(states.drop_last(), fs.drop_last(), schedules.drop_last());
        assert(fs.drop_last() =~= fs.subrange(0, n));
        assert forall|i: int| 0 <= i < schedules.len() implies #[trigger] schedules[i]
            == states[0].listeners() by {
            if i < n {
                assert(schedules.drop_last()[i] == schedules[i]);
            }
        }
    }
}

/// A value computed once from a function of no arguments.
pub struct Computed<T> {
    value: T,
}

impl<T> Computed<T> {
    pub closed spec fn value(&self) -> T {
        self.value
    }

    pub fn new<F>(f: F) -> (c: Self)
        where
            F: Fn() -> T,
        requires
            f.requires(()),
        ensures
            f.ensures((), c.value()),
    {
        Computed { value: f() }
    }

    pub fn get(&self) -> (r: T)
        where
            T: Clone,
        ensures
            cloned(self.value(), r),
    {
        self.value.clone()
    }
}

pub fn create_computed<T, F>(f: F) -> (c: Computed<T>)
    where
        F: Fn() -> T,
    requires
        f.requires(()),
    ensures
        f.ensures((), c.value()),
{
    Computed::new(f)
}

pub fn create_signal<T>(value: T) -> (s: Signal<T>)
    ensures
        s.value() == value,
        s.listeners() == Seq::<usize>::empty(),
{
    Signal::new(value)
}

/// A value derived from one dependency signal, recomputed each time the
/// dependency notifies the memo's listener handle.
pub struct Memo<S, T, F> {
    value: T,
    derive: F,
    listener: usize,
    observed: Ghost<S>,
}

impl<S, T, F: Fn(&S) -> T> Memo<S, T, F> {
    /// The derived value.
    pub closed spec fn value(&self) -> T {
        self.value
    }

    /// The derivation function.
    pub closed spec fn derive(&self) -> F {
        self.derive
    }

    /// The dependency value seen at the latest recomputation.
    pub closed spec fn observed(&self) -> S {
        self.observed@
    }

    pub closed spec fn listener_handle(&self) -> usize {
        self.listener
    }

    /// The derived value is the derivation of the last observed dependency
    /// value, and the derivation may be applied to any dependency value.
    pub open spec fn wf(&self) -> bool {
        &&& self.derive().ensures((&self.observed(),), self.value())
        &&& forall|s: S| #[trigger] self.derive().requires((&s,))
    }

    /// The memo listens to `dependency` and was recomputed from its current
    /// value.
    pub open spec fn tracks(&self, dependency: Signal<S>) -> bool {
        &&& self.wf()
        &&& self.observed() == dependency.value()
        &&& dependency.listeners().contains(self.listener_handle())
    }

    pub fn get(&self) -> (r: T)
        where
            T: Clone,
        ensures
            cloned(self.value(), r),
    {
        self.value.clone()
    }

    /// The handle under which the memo listens to its dependency.
    pub fn listener(&self) -> (r: usize)
        ensures
            r == self.listener_handle(),
    {
        self.listener
    }

    /// Recomputes from the dependency's current value; the reaction to a
    /// notification of the memo's listener handle.
    pub fn on_notify(&mut self, dependency: &Signal<S>)
        requires
            old(self).wf(),
        ensures
            final(self).wf(),
            final(self).observed() == dependency.value(),
            final(self).derive() == old(self).derive(),
            final(self).listener_handle() == old(self).listener_handle(),
    {
        self.value = (self.derive)(&dependency.value);
        self.observed = Ghost(dependency.value());
    }
}

/// A memo that tracks its dependency holds the derivation of the
/// dependency's current value: for a derivation that computes `g`, the
/// memo's value is `g` of the dependency's value, never an older one.
pub proof fn law_memo_current<S, T, F: Fn(&S) -> T>(
    m: Memo<S, T, F>,
    dependency: Signal<S>,
    g: spec_fn(S) -> T,
)
    requires
        m.tracks(dependency),
        computes(m.derive(), g),
    ensures
        m.value() == g(dependency.value()),
{
}

/// Updates `dependency` by `f` and, within the same call, recomputes `memo`
/// from the committed value: the synchronous push of the memo's listener.
/// Returns the notification schedule for the dependency's listeners.
pub fn update_and_recompute<S, T, F, G>(
    dependency: &mut Signal<S>,
    memo: &mut Memo<S, T, F>,
    f: G,
) -> (notified: Vec<usize>)
    where
        F: Fn(&S) -> T,
        G: FnOnce(&S) -> S,
    requires
        old(memo).tracks(*old(dependency)),
        f.requires((&old(dependency).value(),)),
    ensures
        f.ensures((&old(dependency).value(),), final(dependency).value()),
        final(dependency).listeners() == old(dependency).listeners(),
        notified@ == old(dependency).listeners(),
        forall|g: spec_fn(S) -> S|
            #![trigger computes(f, g)]
            computes(f, g) ==> Signal::updated(*old(dependency), *final(dependency), g, notified@),
        final(memo).tracks(*final(dependency)),
        final(memo).derive() == old(memo).derive(),
        final(memo).listener_handle() == old(memo).listener_handle(),
{
    let notified = dependency.update(f);
    memo.on_notify(dependency);
    notified
}

/// Derives a value from `dependency` now, and subscribes `listener` to the
/// dependency so that the memo is recomputed on each later notification.
pub fn create_memo<S, T, F>(dependency: &mut Signal<S>, listener: usize, derive: F) -> (m: Memo<
    S,
    T,
    F,
>)
    where
        F: Fn(&S) -> T,
    requires
        forall|s: S| #[trigger] derive.requires((&s,)),
    ensures
        m.wf(),
        m.tracks(*final(dependency)),
        m.derive() == derive,
        m.observed() == old(dependency).value(),
        m.listener_handle() == listener,
        final(dependency).value() == old(dependency).value(),
        final(dependency).listeners() == old(dependency).listeners().push(listener),
{
    let value = derive(&dependency.value);
    dependency.subscribe(listener);
    assert(dependency.listeners()[dependency.listeners().len() - 1] == listener);
    Memo { value, derive, listener, observed: Ghost(dependency.value()) }
}

} // verus!
