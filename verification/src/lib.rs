//! The widget-facing core of a small GUI toolkit: the state that widgets keep
//! outside themselves, the mouse buttons and widget events they see, and the
//! frame timing of the window that drives them.
use vstd::prelude::*;

pub mod window;

pub use window::FrameTimeMeasurement;
pub use window::FrameTimeStats;

verus! {

/// A value of any `'static` type whose type is known only at run time: the
/// state of a widget, which the toolkit keeps on the widget's behalf. It holds
/// a `Box<dyn std::any::Any>`; the struct is opaque, and nothing is modelled of
/// its content or of the run-time type of that content.
#[verifier::external_body]
pub struct DynData {
    inner: Box<dyn std::any::Any>,
}

impl DynData {
    /// Calls `Box::new` and coerces the box to `Box<dyn std::any::Any>`.
    /// Nothing is stated of the result: its content is opaque here.
    #[verifier::external_body]
    pub fn new<T: 'static>(value: T) -> (r: DynData) {
        DynData { inner: Box::new(value) }
    }

    /// Calls `<dyn std::any::Any>::downcast_mut::<T>` on the stored value.
    /// Whether it finds a `T` depends on the run-time type of the stored value,
    /// which is not modelled, so that is left unsaid. What is stated: when it
    /// finds none, the stored value is left as it was.
    #[verifier::external_body]
    fn downcast_mut<T: 'static>(&mut self) -> (r: Option<&mut T>)
        ensures
            r is None ==> *final(self) == *old(self),
    {
        self.inner.downcast_mut::<T>()
    }
}

/// The state of one widget: its id and its data, of a type only the widget
/// knows.
pub struct WidgetData {
    id: usize,
    data: DynData,
}

impl WidgetData {
    /// The widget id this state belongs to.
    pub closed spec fn spec_id(&self) -> usize {
        self.id
    }

    /// The data stored for the widget.
    pub closed spec fn spec_data(&self) -> DynData {
        self.data
    }

    /// State for widget `id`, holding `data`.
    pub fn new(id: usize, data: DynData) -> (r: Self)
        ensures
            r.spec_id() == id,
            r.spec_data() == data,
    {
        WidgetData { id, data }
    }

    /// Applies `f` to the data that a downcast found, if it found any.
    pub fn apply_to_found<T, F, R>(found: Option<&mut T>, f: F) -> (r: Option<R>) where
        F: FnOnce(&mut T) -> R,

        requires
            found is Some ==> f.requires((found->0,)),
        ensures
            found is None ==> r is None,
            found is Some ==> (r is Some && f.ensures((found->0,), r->0)),
    {
        found.map(f)
    }

    /// Runs `f` on the widget's data if the data is of type `T`, and returns
    /// what `f` returned; returns `None` when the data has another type, and
    /// then leaves the state as it was.
    pub fn with<F, T: 'static, R>(&mut self, f: F) -> (r: Option<R>) where
        F: FnOnce(&mut T) -> R,

        requires
            forall|d: &mut T| f.requires((d,)),
        ensures
            final(self).spec_id() == old(self).spec_id(),
            r matches Some(v) ==> exists|d: &mut T| f.ensures((d,), v),
            r is None ==> *final(self) == *old(self),
    {
        let found = self.data.downcast_mut::<T>();
        Self::apply_to_found(found, f)
    }
}

/// A mouse button.
#[derive(Debug, Clone, Copy)]
pub enum MButton {
    Left,
    Right,
    Middle,
}

/// An event that a widget reports.
#[derive(Debug, Clone)]
pub enum WidgetEvent {
    Clicked,
}

/// A widget that draws nothing, takes no space and ignores events.
#[derive(Debug, Clone, Copy)]
pub struct DummyWidget {}

impl DummyWidget {
    pub fn new() -> (r: Self)
        ensures
            r == (DummyWidget {}),
    {
        DummyWidget {}
    }
}

} // verus!
