//! Background work: loading a file, and asking the user for one.

use crate::geometry::Geometry;
use vstd::prelude::*;

verus! {

/// Something that can produce the geometries of a file.
pub trait FileLoader: Sized {
    /// Why loading failed.
    type Error;

    /// Reads and parses the file.
    fn load(self) -> Result<Vec<Geometry>, Self::Error>;
}

/// The work of loading one file.
pub struct LoadFileJob<F: FileLoader> {
    pub file_loader: F,
    pub name: String,
    pub source_crs: String,
}

/// What a finished load hands over.
#[derive(Debug)]
pub struct LoadFileJobOutcome {
    pub geometry: Vec<Geometry>,
    pub name: String,
    pub source_crs: String,
}

/// What a load that went as `loaded` hands over, for a file of that name
/// and reference system.
pub open spec fn outcome_spec<E>(
    name: String,
    source_crs: String,
    loaded: Result<Vec<Geometry>, E>,
) -> Result<LoadFileJobOutcome, E> {
    match loaded {
        Ok(geometry) => Ok(LoadFileJobOutcome { geometry, name, source_crs }),
        Err(e) => Err(e),
    }
}

/// Makes the outcome of a load: the geometries with the name and reference
/// system of the file, or the error of the loader.
pub fn load_outcome<E>(name: String, source_crs: String, loaded: Result<Vec<Geometry>, E>) -> (r:
    Result<LoadFileJobOutcome, E>)
    ensures
        r == outcome_spec(name, source_crs, loaded),
{
    match loaded {
        Ok(geometry) => Ok(LoadFileJobOutcome { geometry, name, source_crs }),
        Err(e) => Err(e),
    }
}

impl<F: FileLoader> LoadFileJob<F> {
    /// What the job is called while it runs.
    pub fn name(&self) -> (r: String)
        ensures
            r@ == "Loading GeoJson file"@,
    {
        "Loading GeoJson file".to_owned()
    }

    /// Loads the file. A failed load gives the error of the loader; a load
    /// that went well gives the geometries under the name and reference
    /// system of the job.
    pub fn perform(self) -> (r: Result<LoadFileJobOutcome, F::Error>)
        ensures
            r matches Ok(outcome) ==> outcome.name == self.name && outcome.source_crs
                == self.source_crs,
    {
        let loaded = self.file_loader.load();
        load_outcome(self.name, self.source_crs, loaded)
    }
}

/// The work of asking the user for a file.
#[derive(Clone, Copy, PartialEq, Eq, Structural, Debug)]
pub struct OpenFileTask;

impl OpenFileTask {
    /// What the task is called while it runs.
    pub fn name(&self) -> (r: String)
        ensures
            r@ == "Opening file"@,
    {
        "Opening file".to_owned()
    }
}

} // verus!
