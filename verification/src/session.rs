//! A session: the module that was loaded and the scan that was made with it.
//!
//! The steps of a session come in a fixed order: a module is loaded, a
//! directory is scanned against it, and operations run on what the scan
//! found. A step whose turn has not come is refused.

use crate::reconcile::findings_of;
use crate::reconcile::report_of;
use crate::reconcile::scan;
use crate::reconcile::ArchiveFile;
use crate::reconcile::ScanError;
use crate::reconcile::ScanReport;
use crate::registry::Module;
use vstd::prelude::*;

verus! {

/// Why a step of a session was refused or failed.
#[derive(Debug)]
pub enum SessionError {
    /// No module has been loaded yet.
    NoModule,
    /// No directory has been scanned since the module was loaded.
    NoScan,
    /// The scan was given up.
    Scan(ScanError),
}

/// The state of a session.
#[derive(Debug)]
pub struct Session {
    module: Option<Module>,
    report: Option<ScanReport>,
}

impl Session {
    /// The session is valid: what it holds is valid, and it holds a scan
    /// only together with the module that the scan was made with.
    pub closed spec fn wf(&self) -> bool {
        &&& self.module matches Some(m) ==> m.wf()
        &&& self.report matches Some(r) ==> r.jar_to_modid.wf() && self.module is Some
    }

    /// The module that is loaded, if any.
    pub closed spec fn loaded(&self) -> Option<Module> {
        self.module
    }

    /// The report of the last scan, if any was made since the module was
    /// loaded.
    pub closed spec fn scanned(&self) -> Option<ScanReport> {
        self.report
    }

    /// A session in which nothing has happened yet.
    pub fn new() -> (session: Session)
        ensures
            session.wf(),
            session.loaded() is None,
            session.scanned() is None,
    {
        Session { module: None, report: None }
    }

    /// Takes `module` as the module of the session. What an earlier scan
    /// found is dropped with the module that it was made with.
    pub fn load(&mut self, module: Module)
        requires
            old(self).wf(),
            module.wf(),
        ensures
            final(self).wf(),
            final(self).loaded() == Some(module),
            final(self).scanned() is None,
    {
        self.module = Some(module);
        self.report = None;
    }

    /// The module of the session.
    pub fn module(&self) -> (module: Result<&Module, SessionError>)
        requires
            self.wf(),
        ensures
            (match self.loaded() {
                Some(m) => module matches Ok(found) && *found == m && m.wf(),
                None => module matches Err(SessionError::NoModule),
            }),
    {
        match &self.module {
            Some(module) => Ok(module),
            None => Err(SessionError::NoModule),
        }
    }

    /// The report of the last scan.
    pub fn report(&self) -> (report: Result<&ScanReport, SessionError>)
        requires
            self.wf(),
        ensures
            (match (self.loaded(), self.scanned()) {
                (None, _) => report matches Err(SessionError::NoModule),
                (Some(_), None) => report matches Err(SessionError::NoScan),
                (Some(_), Some(r)) => report matches Ok(found) && *found == r
                    && r.jar_to_modid.wf(),
            }),
    {
        match &self.module {
            Some(_) => match &self.report {
                Some(report) => Ok(report),
                None => Err(SessionError::NoScan),
            },
            None => Err(SessionError::NoModule),
        }
    }

    /// Scans the files of a directory against the module of the session and
    /// keeps the report. Without a module the scan is refused. A scan that is
    /// given up leaves the session as it was.
    pub fn scan(&mut self, files: &Vec<ArchiveFile>) -> (outcome: Result<(), SessionError>)
        requires
            old(self).wf(),
        ensures
            final(self).wf(),
            final(self).loaded() == old(self).loaded(),
            (match old(self).loaded() {
                None => {
                    &&& outcome matches Err(SessionError::NoModule)
                    &&& final(self).scanned() == old(self).scanned()
                },
                Some(module) => match findings_of(files@, files@.len() as int) {
                    Ok(findings) => {
                        &&& outcome is Ok
                        &&& final(self).scanned() is Some
                        &&& final(self).scanned()->0@ == report_of(findings, module@.mods)
                    },
                    Err((at, fault)) => {
                        &&& outcome matches Err(SessionError::Scan(e))
                        &&& e.file_name@ == files@[at].name@
                        &&& e.cause.fault() == fault
                        &&& final(self).scanned() == old(self).scanned()
                    },
                },
            }),
    {
        let scanned = match &self.module {
            Some(module) => scan(files, module),
            None => { return Err(SessionError::NoModule); },
        };
        match scanned {
            Ok(report) => {
                self.report = Some(report);
                Ok(())
            },
            Err(e) => Err(SessionError::Scan(e)),
        }
    }
}

} // verus!
