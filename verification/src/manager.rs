use vstd::prelude::*;

use crate::error::{engine_error, is_engine_error, OcrError, OcrResult};

verus! {

/// Message of the error for a request made before any engine was installed.
pub open spec fn not_initialized_msg() -> Seq<char> {
    "OCR engine not initialized"@
}

/// Message of the error when the registry's lock could not be taken.
pub open spec fn lock_failed_msg() -> Seq<char> {
    "Failed to acquire lock on OCR engine manager"@
}

/// The process-wide registry of the OCR engine. It is created by the first
/// initialization that gets an engine, and then holds the engine that the
/// last successful initialization installed. Whether its lock could be
/// taken is told to each operation by `lock_acquired` (a lock is lost when a
/// thread panicked while holding it).
pub struct OcrEngineManager<E> {
    created: bool,
    engine: Option<E>,
}

impl<E> OcrEngineManager<E> {
    /// Whether the registry exists.
    pub closed spec fn is_created(&self) -> bool {
        self.created
    }

    /// The installed engine, if any.
    pub closed spec fn installed(&self) -> Option<E> {
        self.engine
    }

    /// The registry after an initialization whose engine construction gave
    /// `engine`: unchanged if construction failed; created, and holding the
    /// new engine if the lock was taken.
    pub open spec fn after_initialize(&self, engine: OcrResult<E>, lock_acquired: bool) -> (
        bool,
        Option<E>,
    ) {
        match engine {
            Err(_) => (self.is_created(), self.installed()),
            Ok(e) => (true, if lock_acquired {
                Some(e)
            } else {
                self.installed()
            }),
        }
    }

    /// The engine that a request is served by, if it is served.
    pub open spec fn serving(&self, lock_acquired: bool) -> Option<E> {
        if self.is_created() && lock_acquired {
            self.installed()
        } else {
            None
        }
    }

    /// The message of the error a request gets when no engine serves it.
    pub open spec fn refusal(&self, lock_acquired: bool) -> Seq<char> {
        if self.is_created() && !lock_acquired {
            lock_failed_msg()
        } else {
            not_initialized_msg()
        }
    }

    /// The registry before any initialization.
    pub fn new() -> (m: Self)
        ensures
            !m.is_created(),
            m.installed() is None,
    {
        OcrEngineManager { created: false, engine: None }
    }

    fn install(&mut self, engine: OcrResult<E>, lock_acquired: bool) -> (r: OcrResult<()>)
        ensures
            (final(self).is_created(), final(self).installed()) == old(self).after_initialize(
                engine,
                lock_acquired,
            ),
            engine is Err ==> r == Err::<(), OcrError>(engine->Err_0),
            engine is Ok && lock_acquired ==> r is Ok,
            engine is Ok && !lock_acquired ==> r is Err && is_engine_error(
                r->Err_0,
                lock_failed_msg(),
            ),
    {
        match engine {
            Err(e) => Err(e),
            Ok(e) => {
                self.created = true;
                if !lock_acquired {
                    return Err(engine_error("Failed to acquire lock on OCR engine manager"));
                }
                self.engine = Some(e);
                Ok(())
            },
        }
    }

    /// Installs the engine built from model and character-set files with the
    /// detector's default settings; `engine` is the outcome of building it.
    pub fn initialize(&mut self, engine: OcrResult<E>, lock_acquired: bool) -> (r: OcrResult<()>)
        ensures
            (final(self).is_created(), final(self).installed()) == old(self).after_initialize(
                engine,
                lock_acquired,
            ),
            engine is Err ==> r == Err::<(), OcrError>(engine->Err_0),
            engine is Ok && lock_acquired ==> r is Ok,
            engine is Ok && !lock_acquired ==> r is Err && is_engine_error(
                r->Err_0,
                lock_failed_msg(),
            ),
    {
        self.install(engine, lock_acquired)
    }

    /// Installs the engine built from model and character-set files with the
    /// given detector settings; `engine` is the outcome of building it.
    pub fn initialize_with_config(&mut self, engine: OcrResult<E>, lock_acquired: bool) -> (r:
        OcrResult<()>)
        ensures
            (final(self).is_created(), final(self).installed()) == old(self).after_initialize(
                engine,
                lock_acquired,
            ),
            engine is Err ==> r == Err::<(), OcrError>(engine->Err_0),
            engine is Ok && lock_acquired ==> r is Ok,
            engine is Ok && !lock_acquired ==> r is Err && is_engine_error(
                r->Err_0,
                lock_failed_msg(),
            ),
    {
        self.install(engine, lock_acquired)
    }

    /// Installs the engine built from in-memory models and character set with
    /// the given detector settings; `engine` is the outcome of building it.
    pub fn initialize_with_config_and_bytes(
        &mut self,
        engine: OcrResult<E>,
        lock_acquired: bool,
    ) -> (r: OcrResult<()>)
        ensures
            (final(self).is_created(), final(self).installed()) == old(self).after_initialize(
                engine,
                lock_acquired,
            ),
            engine is Err ==> r == Err::<(), OcrError>(engine->Err_0),
            engine is Ok && lock_acquired ==> r is Ok,
            engine is Ok && !lock_acquired ==> r is Err && is_engine_error(
                r->Err_0,
                lock_failed_msg(),
            ),
    {
        self.install(engine, lock_acquired)
    }

    /// The registry's slot, once the registry exists.
    pub fn get_instance(&self) -> (r: OcrResult<&Option<E>>)
        ensures
            self.is_created() ==> (r matches Ok(slot) && *slot == self.installed()),
            !self.is_created() ==> r is Err && is_engine_error(r->Err_0, not_initialized_msg()),
    {
        if self.created {
            Ok(&self.engine)
        } else {
            Err(engine_error("OCR engine not initialized"))
        }
    }

    /// The engine that serves a request: the installed one, when the registry
    /// exists, its lock was taken and an engine is installed; otherwise the
    /// error the request gets.
    pub fn engine(&self, lock_acquired: bool) -> (r: OcrResult<&E>)
        ensures
            r is Ok <==> self.serving(lock_acquired) is Some,
            r matches Ok(e) ==> Some(*e) == self.serving(lock_acquired),
            r is Err ==> is_engine_error(r->Err_0, self.refusal(lock_acquired)),
    {
        let slot = self.get_instance()?;
        if !lock_acquired {
            return Err(engine_error("Failed to acquire lock on OCR engine manager"));
        }
        match slot {
            Some(e) => Ok(e),
            None => Err(engine_error("OCR engine not initialized")),
        }
    }
}

/// Laws of the registry.
impl<E> OcrEngineManager<E> {
    /// Before any initialization every request is refused as "not
    /// initialized", whatever the lock.
    pub proof fn lemma_uninitialized_refuses(m: Self, lock_acquired: bool)
        requires
            !m.is_created(),
        ensures
            m.serving(lock_acquired) is None,
            m.refusal(lock_acquired) == not_initialized_msg(),
    {
    }

    /// A successful initialization serves the next requests with the engine it
    /// installed, replacing any earlier one.
    pub proof fn lemma_initialize_then_serve(m: Self, engine: E, next: Self)
        requires
            (next.is_created(), next.installed()) == m.after_initialize(Ok(engine), true),
        ensures
            next.serving(true) == Some(engine),
    {
    }

    /// An initialization whose engine could not be built changes nothing, and
    /// one that could not take the lock keeps the engine installed before.
    pub proof fn lemma_failed_initialize_keeps_engine(
        m: Self,
        engine: OcrResult<E>,
        next: Self,
    )
        requires
            (next.is_created(), next.installed()) == m.after_initialize(engine, false)
                || (engine is Err && (next.is_created(), next.installed()) == m.after_initialize(
                engine,
                true,
            )),
        ensures
            next.installed() == m.installed(),
            engine is Err ==> next.is_created() == m.is_created(),
    {
    }
}

} // verus!
