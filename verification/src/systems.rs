use vstd::prelude::*;
use vstd::string::*;

use eframe::egui;

verus! {

/// The egui context that a system draws with; opaque here.
#[verifier::external_type_specification]
#[verifier::external_body]
pub struct ExEguiContext(egui::Context);

/// The egui region that a system draws into; opaque here.
#[verifier::external_type_specification]
#[verifier::external_body]
pub struct ExEguiUi(egui::Ui);

/// A lifecycle hook of an editor system.
#[derive(Debug, Clone, Copy, PartialEq, Eq, Structural)]
pub enum Hook {
    Enable,
    Update,
    Disable,
}

/// A piece of editor functionality loaded from a package.
///
/// Each system has, as ghost state, the log of the hooks run on it, oldest
/// first; each hook adds exactly its own entry. The verified library proves
/// its claims about that log for implementations that Verus checks;
/// systems that a package's library hands over at run time are not checked,
/// and are held to it by nobody but their authors.
pub trait EditorSystem: Send + Sync {
    /// The hooks run on this system so far, oldest first. An implementation
    /// that Verus checks defines it; the body here is a default only, so that
    /// implementations built outside Verus need not write it, and for a
    /// system type that Verus does not see it assumes nothing of it.
    closed spec fn hooks(&self) -> Seq<Hook> {
        Seq::empty()
    }

    /// Called once when the system is added.
    fn on_enable(&mut self)
        ensures
            final(self).hooks() == old(self).hooks().push(Hook::Enable),
    ;

    /// Called every frame to draw the system.
    fn on_update(&mut self, ctx: &egui::Context, ui: &mut egui::Ui)
        ensures
            final(self).hooks() == old(self).hooks().push(Hook::Update),
    ;

    /// Called once before the system is dropped.
    fn on_disable(&mut self)
        ensures
            final(self).hooks() == old(self).hooks().push(Hook::Disable),
    ;
}

/// A boxed system, such as one a package's library hands out, is a system
/// whose hooks and log are those of the system in the box.
impl<S: EditorSystem + ?Sized> EditorSystem for Box<S> {
    open spec fn hooks(&self) -> Seq<Hook> {
        (**self).hooks()
    }

    fn on_enable(&mut self) {
        (**self).on_enable();
    }

    fn on_update(&mut self, ctx: &egui::Context, ui: &mut egui::Ui) {
        (**self).on_update(ctx, ui);
    }

    fn on_disable(&mut self) {
        (**self).on_disable();
    }
}

/// The editor systems that are active, in the order they were added, and
/// (as ghost state) every system removed by a reload, as it was when it went.
pub struct SystemManager<S: EditorSystem> {
    active_systems: Vec<S>,
    retired: Ghost<Seq<S>>,
}

impl<S: EditorSystem> SystemManager<S> {
    /// The active systems.
    pub closed spec fn systems(&self) -> Seq<S> {
        self.active_systems@
    }

    /// The systems removed by reloads so far, oldest first, each as it was
    /// when it was removed.
    pub closed spec fn retired(&self) -> Seq<S> {
        self.retired@
    }

    /// A manager with no systems.
    pub fn new() -> (m: Self)
        ensures
            m.systems().len() == 0,
            m.retired().len() == 0,
    {
        SystemManager { active_systems: Vec::new(), retired: Ghost(Seq::empty()) }
    }

    /// Enables `system` and appends it to the active systems.
    pub fn add_system(&mut self, system: S)
        ensures
            final(self).systems().len() == old(self).systems().len() + 1,
            final(self).systems().take(old(self).systems().len() as int) == old(self).systems(),
            final(self).systems().last().hooks() == system.hooks().push(Hook::Enable),
            final(self).retired() == old(self).retired(),
    {
        let mut system = system;
        system.on_enable();
        self.active_systems.push(system);
        assert(self.active_systems@.take(old(self).systems().len() as int) =~= old(self).systems());
    }

    /// The active systems, for the caller to update or inspect.
    pub fn systems_mut(&mut self) -> (r: &mut Vec<S>)
        ensures
            r@ == old(self).systems(),
            final(self).systems() == final(r)@,
            final(self).retired() == old(self).retired(),
    {
        &mut self.active_systems
    }

    /// Disables every active system, first to last, and keeps them where
    /// they were: each one's log gains exactly one `Disable`.
    pub fn disable_all(&mut self)
        ensures
            final(self).systems().len() == old(self).systems().len(),
            forall|i: int|
                0 <= i < final(self).systems().len() ==> (#[trigger] final(self).systems()[i]).hooks()
                    == old(self).systems()[i].hooks().push(Hook::Disable),
            final(self).retired() == old(self).retired(),
    {
        let n = self.active_systems.len();
        let mut i: usize = 0;
        while i < n
            invariant
                n == self.active_systems@.len(),
                i <= n,
                forall|j: int|
                    0 <= j < i ==> (#[trigger] self.active_systems@[j]).hooks() == old(self).systems()[j].hooks().push(
                        Hook::Disable,
                    ),
                forall|j: int| i <= j < n ==> #[trigger] self.active_systems@[j] == old(self).systems()[j],
                self.retired@ == old(self).retired@,
            decreases n - i,
        {
            self.active_systems[i].on_disable();
            i = i + 1;
        }
    }

    /// Disables every active system, first to last, and removes them all,
    /// ready for the editor library to be replaced. The removed systems join
    /// the retired ones, in their order, each with exactly one `Disable`
    /// added to its log.
    pub fn reload_systems(&mut self)
        ensures
            final(self).systems().len() == 0,
            final(self).retired().len() == old(self).retired().len() + old(self).systems().len(),
            final(self).retired().take(old(self).retired().len() as int) == old(self).retired(),
            forall|i: int|
                0 <= i < old(self).systems().len() ==> (#[trigger] final(self).retired()[old(
                    self,
                ).retired().len() + i]).hooks() == old(self).systems()[i].hooks().push(Hook::Disable),
    {
        self.disable_all();
        let ghost removed = self.active_systems@;
        self.retired = Ghost(self.retired@ + removed);
        self.active_systems.clear();
        assert(self.retired@.take(old(self).retired().len() as int) =~= old(self).retired());
        assert forall|i: int| 0 <= i < old(self).systems().len() implies (#[trigger] self.retired@[old(
            self,
        ).retired().len() + i]).hooks() == old(self).systems()[i].hooks().push(Hook::Disable) by {
            assert(self.retired@[old(self).retired().len() + i] == removed[i]);
        }
    }
}

/// How looking for and loading the editor library went.
pub enum EditorLoad<S> {
    /// No library file at the expected path.
    FileMissing,
    /// The file could not be loaded; the loader's error, as text.
    LoadFailed(String),
    /// The library has no `create_system` constructor.
    SymbolMissing,
    /// The library's constructor made this system.
    Created(S),
}

/// The error that a failed editor load reports, for the library at `path`.
pub open spec fn load_error_spec<S>(path: Seq<char>, load: EditorLoad<S>) -> Seq<char> {
    match load {
        EditorLoad::FileMissing => "Library file not found at: "@ + path,
        EditorLoad::LoadFailed(e) => "Failed to load library: "@ + e@,
        EditorLoad::SymbolMissing => "Could not find 'create_system' symbol in editor library."@,
        EditorLoad::Created(_) => Seq::empty(),
    }
}

/// Finishes a reload of the editor library at `path`: a system that the
/// library created is enabled once and added, and the reload succeeds; otherwise
/// the systems stay as they are and the reload fails with the reason.
pub fn settle_editor_load<S: EditorSystem>(
    systems: &mut SystemManager<S>,
    path: &str,
    load: EditorLoad<S>,
) -> (r: Result<(), String>)
    ensures
        load is Created <==> r is Ok,
        load is Created ==> {
            &&& final(systems).systems().len() == old(systems).systems().len() + 1
            &&& final(systems).systems().take(old(systems).systems().len() as int) == old(systems).systems()
            &&& final(systems).systems().last().hooks() == load->Created_0.hooks().push(Hook::Enable)
            &&& final(systems).retired() == old(systems).retired()
        },
        !(load is Created) ==> *final(systems) == *old(systems),
        r matches Err(e) ==> e@ == load_error_spec(path@, load),
{
    match load {
        EditorLoad::FileMissing => Err(String::from_str("Library file not found at: ").concat(path)),
        EditorLoad::LoadFailed(e) => Err(String::from_str("Failed to load library: ").concat(e.as_str())),
        EditorLoad::SymbolMissing => Err(
            String::from_str("Could not find 'create_system' symbol in editor library."),
        ),
        EditorLoad::Created(system) => {
            systems.add_system(system);
            Ok(())
        },
    }
}

} // verus!
