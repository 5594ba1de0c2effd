//! The demo application state: a named area and a click counter.

use vstd::prelude::*;

verus! {

/// The application data the view renders.
#[derive(Debug)]
pub struct ModelData {
    pub area: String,
    pub counter: u32,
}

impl ModelData {
    pub fn new(area: &str) -> (m: ModelData)
        ensures
            m.area@ == area@,
            m.counter == 0,
    {
        ModelData { area: area.to_owned(), counter: 0 }
    }
}

/// The model as the render loop owns it. Handlers get at it only for the
/// duration of one dispatch, through the loop, never by address.
#[derive(Debug)]
pub struct Model {
    pub data: ModelData,
}

impl Model {
    pub fn new(data: ModelData) -> (m: Model)
        ensures
            m.data == data,
    {
        Model { data }
    }

    /// The click handler: count one click, wrapping around at the unsigned
    /// limit.
    pub fn on_click(&mut self)
        ensures
            final(self).data.counter as int == (old(self).data.counter + 1) % 0x1_0000_0000,
            final(self).data.area == old(self).data.area,
    {
        self.data.counter = self.data.counter.wrapping_add(1);
    }
}

} // verus!
