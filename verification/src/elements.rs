//! Elements that flow between operators, and their windowing.
use vstd::prelude::*;

verus! {

broadcast use {
    vstd::std_specs::vec::axiom_vec_decreases_to_view,
    vstd::std_specs::vec::axiom_vec_index_decreases,
};

/// The payload of an element.
#[derive(Debug, PartialEq)]
pub enum Value {
    Text(String),
    Bytes(Vec<u8>),
    Int(i64),
    Kv(Box<Value>, Box<Value>),
    Iterable(Vec<Value>),
}

/// What a `Value` denotes, with sequences in place of vectors.
pub enum ValueView {
    Text(Seq<char>),
    Bytes(Seq<u8>),
    Int(i64),
    Kv(Box<ValueView>, Box<ValueView>),
    Iterable(Seq<ValueView>),
}

pub open spec fn view_values(items: Seq<Value>) -> Seq<ValueView>
    decreases items,
{
    if items.len() == 0 {
        Seq::empty()
    } else {
        view_values(items.drop_last()).push(value_view(items.last()))
    }
}

pub open spec fn value_view(v: Value) -> ValueView
    decreases v,
{
    match v {
        Value::Text(s) => ValueView::Text(s@),
        Value::Bytes(b) => ValueView::Bytes(b@),
        Value::Int(i) => ValueView::Int(i),
        Value::Kv(k, x) => ValueView::Kv(Box::new(value_view(*k)), Box::new(value_view(*x))),
        Value::Iterable(vs) => ValueView::Iterable(view_values(vs@)),
    }
}

impl View for Value {
    type V = ValueView;

    open spec fn view(&self) -> ValueView {
        value_view(*self)
    }
}

pub proof fn lemma_view_values_index(items: Seq<Value>, i: int)
    requires
        0 <= i < items.len(),
    ensures
        view_values(items).len() == items.len(),
        view_values(items)[i] == value_view(items[i]),
    decreases items.len(),
{
    if i < items.len() - 1 {
        lemma_view_values_index(items.drop_last(), i);
    } else {
        lemma_view_values_len(items.drop_last());
    }
}

pub proof fn lemma_view_values_push(items: Seq<Value>, v: Value)
    ensures
        view_values(items.push(v)) == view_values(items).push(value_view(v)),
{
    assert(items.push(v).drop_last() =~= items);
}

pub proof fn lemma_view_values_len(items: Seq<Value>)
    ensures
        view_values(items).len() == items.len(),
    decreases items.len(),
{
    if items.len() > 0 {
        lemma_view_values_len(items.drop_last());
    }
}

/// Two value sequences denote the same thing when they agree element by element.
pub proof fn lemma_view_values_ext(a: Seq<Value>, b: Seq<Value>)
    requires
        a.len() == b.len(),
        forall|i: int| 0 <= i < a.len() ==> value_view(#[trigger] a[i]) == value_view(b[i]),
    ensures
        view_values(a) == view_values(b),
    decreases a.len(),
{
    if a.len() > 0 {
        assert(a.drop_last().len() == b.drop_last().len());
        assert forall|i: int| 0 <= i < a.drop_last().len() implies value_view(
            #[trigger] a.drop_last()[i],
        ) == value_view(b.drop_last()[i]) by {
            assert(a.drop_last()[i] == a[i]);
            assert(b.drop_last()[i] == b[i]);
        }
        lemma_view_values_ext(a.drop_last(), b.drop_last());
    }
}

impl Value {
    /// A copy that denotes the same value.
    pub fn duplicate(&self) -> (r: Value)
        ensures
            r@ == self@,
        decreases self,
    {
        match self {
            Value::Text(s) => Value::Text(s.clone()),
            Value::Bytes(b) => {
                let mut out: Vec<u8> = Vec::new();
                let mut i: usize = 0;
                while i < b.len()
                    invariant
                        0 <= i <= b@.len(),
                        out@ == b@.subrange(0, i as int),
                    decreases b@.len() - i,
                {
                    out.push(b[i]);
                    i = i + 1;
                }
                proof {
                    assert(out@ =~= b@);
                }
                Value::Bytes(out)
            },
            Value::Int(i) => Value::Int(*i),
            Value::Kv(k, x) => {
                let k2 = k.duplicate();
                let x2 = x.duplicate();
                Value::Kv(Box::new(k2), Box::new(x2))
            },
            Value::Iterable(vs) => {
                let mut out: Vec<Value> = Vec::new();
                let mut i: usize = 0;
                while i < vs.len()
                    invariant
                        0 <= i <= vs@.len(),
                        *self == Value::Iterable(*vs),
                        out@.len() == i,
                        forall|j: int| 0 <= j < i ==> value_view(#[trigger] out@[j]) == value_view(vs@[j]),
                    decreases vs@.len() - i,
                {
                    proof {
                        assert(decreases_to!(*self => (*self)->Iterable_0));
                        assert(decreases_to!(*vs => vs[i as int]));
                    }
                    let item = vs[i].duplicate();
                    out.push(item);
                    i = i + 1;
                }
                proof {
                    lemma_view_values_ext(out@, vs@);
                }
                Value::Iterable(out)
            },
        }
    }
}

/// A window an element can belong to.
pub trait Window {}

/// The single window that spans all time.
#[derive(Clone, Copy, Debug, PartialEq, Eq)]
pub struct GlobalWindow;

impl Window for GlobalWindow {}

/// `std::time::Instant`, carried through unchanged.
#[verifier::external_type_specification]
#[verifier::external_body]
pub struct ExInstant(std::time::Instant);

/// Calls `std::time::Instant::now`. It reads the clock, so nothing is
/// promised of the instant it returns.
#[verifier::external_body]
fn current_instant() -> std::time::Instant {
    std::time::Instant::now()
}

/// An element together with its windows, timestamp and pane.
#[derive(Debug)]
pub struct WindowedValue {
    pub windows: Vec<GlobalWindow>,
    pub timestamp: std::time::Instant,
    pub pane_info: Vec<u8>,
    pub value: Value,
}

/// What a `WindowedValue` denotes.
pub struct WindowedValueView {
    pub windows: Seq<GlobalWindow>,
    pub timestamp: std::time::Instant,
    pub pane_info: Seq<u8>,
    pub value: ValueView,
}

impl View for WindowedValue {
    type V = WindowedValueView;

    open spec fn view(&self) -> WindowedValueView {
        WindowedValueView {
            windows: self.windows@,
            timestamp: self.timestamp,
            pane_info: self.pane_info@,
            value: self.value@,
        }
    }
}

/// The pane bytes and windows of an element in the global window.
pub open spec fn in_global_window_shape(wv: WindowedValue) -> bool {
    &&& wv.windows@ == seq![GlobalWindow]
    &&& wv.pane_info@ == Seq::<u8>::empty()
}

impl WindowedValue {
    /// Places `value` in the global window, stamped with the current time
    /// and an empty pane.
    pub fn in_global_window(value: Value) -> (r: WindowedValue)
        ensures
            in_global_window_shape(r),
            r.value == value,
    {
        WindowedValue::in_global_window_at(value, current_instant())
    }

    /// Places `value` in the global window, stamped with `timestamp` and an
    /// empty pane.
    pub fn in_global_window_at(value: Value, timestamp: std::time::Instant) -> (r: WindowedValue)
        ensures
            in_global_window_shape(r),
            r.timestamp == timestamp,
            r.value == value,
    {
        let mut windows: Vec<GlobalWindow> = Vec::new();
        windows.push(GlobalWindow);
        WindowedValue { windows, timestamp, pane_info: Vec::new(), value }
    }

    /// The same windows, timestamp and pane, carrying `value` instead.
    pub fn with_value(&self, value: Value) -> (r: WindowedValue)
        ensures
            r.windows@ == self.windows@,
            r.timestamp == self.timestamp,
            r.pane_info@ == self.pane_info@,
            r.value == value,
    {
        let mut windows: Vec<GlobalWindow> = Vec::new();
        let mut i: usize = 0;
        while i < self.windows.len()
            invariant
                0 <= i <= self.windows@.len(),
                windows@ == self.windows@.subrange(0, i as int),
            decreases self.windows@.len() - i,
        {
            windows.push(GlobalWindow);
            i = i + 1;
        }
        let mut pane_info: Vec<u8> = Vec::new();
        let mut j: usize = 0;
        while j < self.pane_info.len()
            invariant
                0 <= j <= self.pane_info@.len(),
                pane_info@ == self.pane_info@.subrange(0, j as int),
            decreases self.pane_info@.len() - j,
        {
            pane_info.push(self.pane_info[j]);
            j = j + 1;
        }
        proof {
            assert(windows@ =~= self.windows@);
            assert(pane_info@ =~= self.pane_info@);
        }
        WindowedValue { windows, timestamp: self.timestamp, pane_info, value }
    }

    /// A copy of this element.
    pub fn duplicate(&self) -> (r: WindowedValue)
        ensures
            r@ == self@,
    {
        self.with_value(self.value.duplicate())
    }
}

} // verus!
