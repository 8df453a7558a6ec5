//! The service boundary: the one place through which request handlers reach
//! the registry, and where every failure becomes a response.

use vstd::prelude::*;
use crate::access::PermissionSet;
use crate::dap::main_name;
use crate::daps::{DapUpdateQuery, DapView};
use crate::error::{kind_of, message_of, status_of, ErrorKind, ServerError, ServerResult};
use crate::manager::{
    describes, discovered, is_target, main_state, needs_module, needs_write, with_loaded, DapState,
    DapsManager, Discovery, FoundEntry, Registry, UpdatePlan,
};
use crate::module::{from_engine, ModuleError, ModuleRead};
use crate::settings::DapSettingsView;

verus! {

/// What the public listing tells of one dap.
#[derive(Debug, PartialEq, Eq)]
pub struct DapInfo {
    pub name: String,
    pub title: String,
    pub enabled: bool,
    pub required: PermissionSet,
    pub allowed: PermissionSet,
}

/// What the public listing tells of one dap, as plain values.
pub struct DapInfoView {
    pub name: Seq<char>,
    pub settings: DapSettingsView,
}

impl View for DapInfo {
    type V = DapInfoView;

    open spec fn view(&self) -> DapInfoView {
        DapInfoView {
            name: self.name@,
            settings: DapSettingsView {
                title: self.title@,
                enabled: self.enabled,
                required: self.required@,
                allowed: self.allowed@,
            },
        }
    }
}

/// What the listing tells of a dap: its name and settings, not where it is
/// kept.
pub open spec fn listed(dap: DapView) -> DapInfoView {
    DapInfoView { name: dap.name, settings: dap.settings }
}

/// The body of an administrative request that asks to change a dap.
#[derive(Debug, PartialEq, Eq)]
pub struct DapUpdateRequest {
    pub dap_name: String,
    pub enabled: Option<bool>,
}

impl DapUpdateRequest {
    /// What the request asks to change.
    pub open spec fn query(&self) -> DapUpdateQuery {
        DapUpdateQuery { enabled: self.enabled }
    }

    /// Parts the request into the name of the dap and what to change of it.
    pub fn into_query(self) -> (r: (String, DapUpdateQuery))
        ensures
            r.0 == self.dap_name,
            r.1 == self.query(),
    {
        (self.dap_name, DapUpdateQuery { enabled: self.enabled })
    }
}

/// What a request that went well is answered with.
#[derive(Debug, PartialEq, Eq)]
pub enum DapResponse {
    /// The listing of the daps.
    Daps(Vec<DapInfo>),
    /// What a change request did change.
    Updated(DapUpdateQuery),
    /// The path of a file to serve.
    File(String),
    /// The dap holds a running module that can take the request.
    Running,
}

/// The body of a reply.
#[derive(Debug, PartialEq, Eq)]
pub enum ReplyBody {
    /// The answer to a request that went well.
    Content(DapResponse),
    /// The class of a failure and what it says of itself.
    Error { kind: ErrorKind, message: String },
}

/// A reply to an HTTP request: the status and the body.
#[derive(Debug, PartialEq, Eq)]
pub struct HttpReply {
    pub status: u16,
    pub body: ReplyBody,
}

/// Whether `reply` is the failure reply with this status, class and
/// message.
pub open spec fn is_failure(
    reply: HttpReply,
    status: u16,
    kind: ErrorKind,
    text: Seq<char>,
) -> bool {
    &&& reply.status == status
    &&& reply.body matches ReplyBody::Error { kind: class, message }
    &&& class == kind
    &&& message@ == text
}

/// Whether `reply` is the reply to a request that went well, with this
/// content.
pub open spec fn is_content(reply: HttpReply, content: DapResponse) -> bool {
    reply.status == 200 && reply.body == ReplyBody::Content(content)
}

/// Whether `reply` reports the failure `error`: with its status, which is
/// never a success, its class and its message.
pub open spec fn reports(reply: HttpReply, error: ServerError) -> bool {
    is_failure(reply, status_of(error), kind_of(error), message_of(error))
}

/// Whether `reply` answers an operation that ended with `outcome`: what went
/// well with status 200 and its content, a failure with the status of its
/// class and a body that names the class and the failure.
pub open spec fn answers(reply: HttpReply, outcome: ServerResult<DapResponse>) -> bool {
    match outcome {
        Ok(content) => is_content(reply, content),
        Err(error) => reports(reply, error),
    }
}

/// The registry of a host behind its service boundary. Whoever holds the
/// service exclusively holds the registry exclusively, so that the
/// operations on it take place one after the other and each sees what the
/// one before it left.
pub struct DapsService {
    manager: DapsManager,
}

impl View for DapsService {
    type V = Registry;

    open spec fn view(&self) -> Registry {
        self.spec_manager()@
    }
}

impl DapsService {
    /// The registry behind the boundary.
    pub closed spec fn spec_manager(&self) -> DapsManager {
        self.manager
    }

    /// What holds of every service: its registry is well formed.
    pub open spec fn wf(&self) -> bool {
        self.spec_manager().wf()
    }

    /// The root directory under which the daps are kept.
    pub open spec fn spec_daps_path(&self) -> Seq<char> {
        self.spec_manager().spec_daps_path()
    }

    /// A service for the daps under `daps_path`, with a registry that holds
    /// the main dap only.
    pub fn new(daps_path: &str) -> (r: DapsService)
        ensures
            r.wf(),
            r.spec_daps_path() == daps_path@,
            r@ == Map::<Seq<char>, DapState>::empty().insert(main_name(), main_state(daps_path@)),
    {
        DapsService { manager: DapsManager::new(daps_path) }
    }

    /// The registry, to read.
    pub fn manager(&self) -> (r: &DapsManager)
        ensures
            *r == self.spec_manager(),
    {
        &self.manager
    }

    /// Discovery, as [`DapsManager::load_daps`] does it.
    pub fn load_daps(&mut self, found: &Vec<FoundEntry>) -> (r: Vec<Discovery>)
        requires
            old(self).wf(),
        ensures
            final(self).wf(),
            final(self).spec_daps_path() == old(self).spec_daps_path(),
            final(self)@ == discovered(old(self)@, old(self).spec_daps_path(), found@),
            r@.len() == found@.len(),
            forall|i: int|
                0 <= i < found@.len() ==> describes(
                    #[trigger] r@[i],
                    discovered(old(self)@, old(self).spec_daps_path(), found@.take(i)),
                    old(self).spec_daps_path(),
                    found@[i],
                ),
    {
        self.manager.load_daps(found)
    }

    /// Loads the module of a dap, as [`DapsManager::load`] does it, and
    /// tells how it went. It is for the daps that discovery registered
    /// enabled.
    pub fn load(&mut self, name: &str, module: ModuleRead) -> (r: ServerResult<()>)
        requires
            old(self).wf(),
        ensures
            final(self).wf(),
            final(self).spec_daps_path() == old(self).spec_daps_path(),
            match r {
                Ok(()) => {
                    &&& old(self)@.contains_key(name@)
                    &&& old(self)@[name@].dap.settings.enabled
                    &&& module is Ok
                    &&& final(self)@ == with_loaded(old(self)@, name@, true)
                },
                Err(ServerError::DapNotFound(text)) => {
                    &&& !old(self)@.contains_key(name@)
                    &&& text@ == name@
                    &&& final(self)@ == old(self)@
                },
                Err(ServerError::Module(error)) => {
                    &&& old(self)@.contains_key(name@)
                    &&& final(self)@ == with_loaded(old(self)@, name@, false)
                    &&& if !old(self)@[name@].dap.settings.enabled {
                        error is Disabled
                    } else {
                        match module {
                            Err(reason) => error matches ModuleError::Unreadable(text) && text
                                == reason,
                            Ok(_) => from_engine(error),
                        }
                    }
                },
                Err(_) => false,
            },
    {
        self.manager.load(name, module)
    }

    /// What has to be done outside before the change that `request` asks
    /// for can be carried out, as [`DapsManager::plan_update`] tells it.
    pub fn plan_update(&self, request: &DapUpdateRequest) -> (r: ServerResult<UpdatePlan>)
        requires
            self.wf(),
        ensures
            match r {
                Ok(plan) => {
                    &&& is_target(self@, request.dap_name@)
                    &&& plan.write is Some <==> needs_write(
                        self@,
                        request.dap_name@,
                        request.query(),
                    )
                    &&& plan.module_file is Some <==> needs_module(
                        self@,
                        request.dap_name@,
                        request.query(),
                    )
                    &&& plan.write matches Some(write) ==> write.path@
                        == self@[request.dap_name@].dap.settings_file()
                        && write.document.settings() == Ok::<DapSettingsView, Seq<char>>(
                        self@[request.dap_name@].dap.updated(request.query()).settings,
                    )
                    &&& plan.module_file matches Some(path) ==> path@
                        == self@[request.dap_name@].dap.server_module_file()
                },
                Err(ServerError::DapNotFound(text)) => !is_target(self@, request.dap_name@)
                    && text@ == request.dap_name@,
                Err(_) => false,
            },
    {
        let query = DapUpdateQuery { enabled: request.enabled };
        self.manager.plan_update(request.dap_name.as_str(), &query)
    }

    /// Turns the outcome of an operation into a reply. What went well is
    /// answered with status 200 and its content; a failure never escapes: it
    /// is answered with the status of its class and a body that names the
    /// class and the failure.
    pub fn respond(outcome: ServerResult<DapResponse>) -> (r: HttpReply)
        ensures
            answers(r, outcome),
    {
        match outcome {
            Ok(content) => HttpReply { status: 200, body: ReplyBody::Content(content) },
            Err(error) => {
                let status = error.status();
                let kind = error.kind();
                let message = error.message();
                HttpReply { status, body: ReplyBody::Error { kind, message } }
            },
        }
    }

    /// Runs `operation` on the registry and replies to it. The caller holds
    /// the service exclusively for as long as this takes, so that the
    /// operation sees, and leaves, a registry that no other operation is in
    /// the middle of changing. Whatever the operation ends with is answered
    /// as [`answers`] says: no failure gets past this point.
    ///
    /// The operation must be one that can run on every well formed registry
    /// and leaves the registry well formed.
    pub fn handle_http<F: FnOnce(&mut DapsManager) -> ServerResult<DapResponse>>(
        &mut self,
        operation: F,
    ) -> (r: HttpReply)
        requires
            old(self).wf(),
            forall|manager: &mut DapsManager|
                (*manager).wf() ==> call_requires(operation, (manager,)),
            forall|manager: &mut DapsManager, outcome: ServerResult<DapResponse>|
                call_ensures(operation, (manager,), outcome) ==> (*final(manager)).wf(),
        ensures
            final(self).wf(),
            exists|manager: &mut DapsManager, outcome: ServerResult<DapResponse>|
                {
                    &&& *manager == old(self).spec_manager()
                    &&& *final(manager) == final(self).spec_manager()
                    &&& #[trigger] call_ensures(operation, (manager,), outcome)
                    &&& answers(r, outcome)
                },
    {
        let outcome = operation(&mut self.manager);
        Self::respond(outcome)
    }
}

} // verus!
