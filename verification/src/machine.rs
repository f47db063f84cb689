//! The machine-side adapter: the interface a running machine offers, and
//! the wrapper that lets any runtime-backed machine stand behind it.

use vstd::prelude::*;

use crate::error::Error;
use crate::exec::Program;

verus! {

/// What a machine must offer: spawning a program, waiting for it, and
/// tearing it down. Implementations live with the surrounding runtime.
pub trait Machine {
    fn spawn(&mut self, id: u64, program: &Program, command: &String) -> Result<(), Error>;

    fn join(&mut self) -> Result<(), Error>;

    fn terminate(&mut self) -> Result<(), Error>;
}

/// What a runtime-backed machine offers natively.
pub trait PyMachine {
    fn py_spawn(&mut self, id: u64, program: &Program, command: &String) -> Result<(), Error>;

    fn py_terminate(&mut self) -> Result<(), Error>;
}

/// Adapts any runtime-backed machine to the machine interface; joining
/// tears the machine down, as the runtime offers nothing gentler.
pub struct PyMachineBase<T: PyMachine>(pub T);

impl<T: PyMachine + 'static> PyMachineBase<T> {
    pub fn into_box_trait(self) -> Box<dyn Machine> {
        Box::new(self)
    }
}

impl<T: PyMachine> Machine for PyMachineBase<T> {
    fn spawn(&mut self, id: u64, program: &Program, command: &String) -> Result<(), Error> {
        self.0.py_spawn(id, program, command)
    }

    fn join(&mut self) -> Result<(), Error> {
        self.terminate()
    }

    fn terminate(&mut self) -> Result<(), Error> {
        self.0.py_terminate()
    }
}

} // verus!
