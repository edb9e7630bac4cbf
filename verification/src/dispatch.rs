//! The Action Dispatcher: maps a request's action name and value to one of
//! {list, open app, open URL, terminate process}, applying the
//! confirmation/fallback contract on failure.
//!
//! Each request is processed in two verified phases around at most one OS
//! call, which the host performs: [`plan_action`] decides what to do, and the
//! outcome functions turn the OS call's result into the response.

use vstd::prelude::*;
use vstd::string::StringExecFns;

use crate::actions::build_fallback_url;
use crate::actions::fallback_url_spec;
use crate::actions::is_valid_url;
use crate::actions::sanitize_windows_app_name;
use crate::actions::shell_safe_name;
use crate::actions::valid_url_spec;
use crate::model::ActionResponse;
use crate::model::ActionResponseView;
use crate::normalize::normalize_chars;
use crate::registry::AppRegistry;
use crate::resolver::resolution_spec;
use crate::resolver::resolve_app;
use crate::text::str_eq;
use crate::text::trim_spec;

verus! {

broadcast use vstd::string::group_string_axioms;

/// What the dispatcher decided for one request: either a finished response,
/// or the single OS action the host must perform before the matching outcome
/// function builds the response.
pub enum ActionStep {
    /// No OS call is needed; this is the response.
    Done(ActionResponse),
    /// Spawn the executable at this registry-resolved path.
    LaunchExecutable { path: String },
    /// Ask the OS shell to resolve and start this sanitized name.
    ResolveNatively { name: String },
    /// Open this URL with the OS default handler.
    OpenUrlExternally { url: String },
    /// Terminate the processes of this image name.
    KillProcessByName { name: String },
}

/// The response listing the installed applications.
pub open spec fn list_apps_view(names: Seq<Seq<char>>) -> ActionResponseView {
    ActionResponseView {
        success: true,
        message: "Installed apps listed"@,
        requires_confirmation: false,
        fallback_action: None,
        fallback_value: None,
        data: Some(names),
    }
}

/// The response for a successfully opened application.
pub open spec fn open_app_success_view() -> ActionResponseView {
    ActionResponseView {
        success: true,
        message: "Application opened"@,
        requires_confirmation: false,
        fallback_action: None,
        fallback_value: None,
        data: None,
    }
}

/// The response for a failed `open_app`: a confirmation request offering the
/// fallback URL built from the value.
pub open spec fn open_app_failure_view(value: Seq<char>, err: Seq<char>) -> ActionResponseView {
    ActionResponseView {
        success: false,
        message: "App not found. Should I open this in Chrome? ("@ + err + ")"@,
        requires_confirmation: true,
        fallback_action: Some("open_url"@),
        fallback_value: Some(fallback_url_spec(value)),
        data: None,
    }
}

/// The response for a malformed URL: a plain failure, no fallback.
pub open spec fn invalid_url_view() -> ActionResponseView {
    ActionResponseView {
        success: false,
        message: "Invalid URL"@,
        requires_confirmation: false,
        fallback_action: None,
        fallback_value: None,
        data: None,
    }
}

/// The response for a successfully opened URL.
pub open spec fn open_url_success_view() -> ActionResponseView {
    ActionResponseView {
        success: true,
        message: "URL opened"@,
        requires_confirmation: false,
        fallback_action: None,
        fallback_value: None,
        data: None,
    }
}

/// The response when the OS handler failed to open a valid URL: surfaced
/// directly, the fallback chain is one level deep only.
pub open spec fn open_url_failure_view(err: Seq<char>) -> ActionResponseView {
    ActionResponseView {
        success: false,
        message: "Failed to open URL: "@ + err,
        requires_confirmation: false,
        fallback_action: None,
        fallback_value: None,
        data: None,
    }
}

/// The response for a terminated process.
pub open spec fn kill_success_view() -> ActionResponseView {
    ActionResponseView {
        success: true,
        message: "Process terminated"@,
        requires_confirmation: false,
        fallback_action: None,
        fallback_value: None,
        data: None,
    }
}

/// The response when process termination failed.
pub open spec fn kill_failure_view(err: Seq<char>) -> ActionResponseView {
    ActionResponseView {
        success: false,
        message: "Failed to terminate process: "@ + err,
        requires_confirmation: false,
        fallback_action: None,
        fallback_value: None,
        data: None,
    }
}

/// The response for an unrecognized action name.
pub open spec fn unknown_action_view(action: Seq<char>) -> ActionResponseView {
    ActionResponseView {
        success: false,
        message: "Unknown action: "@ + action,
        requires_confirmation: false,
        fallback_action: None,
        fallback_value: None,
        data: None,
    }
}

/// Builds the `list_apps` response over the registry's display names.
pub fn list_apps_response(registry: &AppRegistry) -> (r: ActionResponse)
    ensures
        r@ == list_apps_view(registry.display_names.deep_view()),
{
    let names = clone_names(&registry.display_names);
    ActionResponse {
        success: true,
        message: String::from_str("Installed apps listed"),
        requires_confirmation: false,
        fallback_action: None,
        fallback_value: None,
        data: Some(names),
    }
}

/// Copies the display-name list handed out by `list_apps`.
fn clone_names(names: &Vec<String>) -> (r: Vec<String>)
    ensures
        r.deep_view() == names.deep_view(),
{
    let n = names.len();
    let mut out: Vec<String> = Vec::new();
    let mut i: usize = 0;
    while i < n
        invariant
            0 <= i <= n,
            n == names@.len(),
            out.deep_view() =~= names.deep_view().take(i as int),
        decreases n - i,
    {
        let ghost prev = out.deep_view();
        out.push(names[i].clone());
        proof {
            assert(names.deep_view()[i as int] == names@[i as int]@);
            assert(out.deep_view() =~= prev.push(names.deep_view()[i as int])) by {
                assert(forall|k: int|
                    0 <= k < out.deep_view().len() ==> out.deep_view()[k] == #[trigger] out@[k]@);
            }
            assert(names.deep_view().take(i + 1) =~= names.deep_view().take(i as int).push(
                names.deep_view()[i as int],
            ));
        }
        i = i + 1;
    }
    proof {
        assert(names.deep_view().take(n as int) =~= names.deep_view());
    }
    out
}

/// Builds the success response for `open_app`.
pub fn open_app_success_response() -> (r: ActionResponse)
    ensures
        r@ == open_app_success_view(),
{
    ActionResponse {
        success: true,
        message: String::from_str("Application opened"),
        requires_confirmation: false,
        fallback_action: None,
        fallback_value: None,
        data: None,
    }
}

/// Builds the failure response for `open_app`: the error folded into the
/// message, and the fallback URL offered behind a confirmation.
pub fn open_app_failure_response(value: &str, err: &str) -> (r: ActionResponse)
    ensures
        r@ == open_app_failure_view(value@, err@),
{
    let mut message = String::from_str("App not found. Should I open this in Chrome? (");
    message.append(err);
    message.append(")");
    ActionResponse {
        success: false,
        message,
        requires_confirmation: true,
        fallback_action: Some(String::from_str("open_url")),
        fallback_value: Some(build_fallback_url(value)),
        data: None,
    }
}

/// Builds the response for a malformed URL.
pub fn invalid_url_response() -> (r: ActionResponse)
    ensures
        r@ == invalid_url_view(),
{
    ActionResponse {
        success: false,
        message: String::from_str("Invalid URL"),
        requires_confirmation: false,
        fallback_action: None,
        fallback_value: None,
        data: None,
    }
}

/// Builds the success response for `open_url`.
pub fn open_url_success_response() -> (r: ActionResponse)
    ensures
        r@ == open_url_success_view(),
{
    ActionResponse {
        success: true,
        message: String::from_str("URL opened"),
        requires_confirmation: false,
        fallback_action: None,
        fallback_value: None,
        data: None,
    }
}

/// Builds the failure response for `open_url`.
pub fn open_url_failure_response(err: &str) -> (r: ActionResponse)
    ensures
        r@ == open_url_failure_view(err@),
{
    let mut message = String::from_str("Failed to open URL: ");
    message.append(err);
    ActionResponse {
        success: false,
        message,
        requires_confirmation: false,
        fallback_action: None,
        fallback_value: None,
        data: None,
    }
}

/// Builds the success response for `kill_process`.
pub fn kill_success_response() -> (r: ActionResponse)
    ensures
        r@ == kill_success_view(),
{
    ActionResponse {
        success: true,
        message: String::from_str("Process terminated"),
        requires_confirmation: false,
        fallback_action: None,
        fallback_value: None,
        data: None,
    }
}

/// Builds the failure response for `kill_process`.
pub fn kill_failure_response(err: &str) -> (r: ActionResponse)
    ensures
        r@ == kill_failure_view(err@),
{
    let mut message = String::from_str("Failed to terminate process: ");
    message.append(err);
    ActionResponse {
        success: false,
        message,
        requires_confirmation: false,
        fallback_action: None,
        fallback_value: None,
        data: None,
    }
}

/// Builds the response for an unrecognized action name.
pub fn unknown_action_response(action: &str) -> (r: ActionResponse)
    ensures
        r@ == unknown_action_view(action@),
{
    let mut message = String::from_str("Unknown action: ");
    message.append(action);
    ActionResponse {
        success: false,
        message,
        requires_confirmation: false,
        fallback_action: None,
        fallback_value: None,
        data: None,
    }
}

/// Decides one request.
///
/// `list_apps` finishes at once; `open_app` resolves the value against the
/// registry and either launches the resolved path, defers to OS-native
/// resolution of the sanitized name, or fails into the fallback-confirmation
/// response; `open_url` validates the value before the OS handler sees it;
/// `kill_process` passes the name through; anything else is rejected with a
/// message naming the action.
pub fn plan_action(action: &str, value: &str, registry: &AppRegistry) -> (r: ActionStep)
    requires
        registry.wf(),
    ensures
        action@ == "list_apps"@ ==> (r matches ActionStep::Done(resp) && resp@ == list_apps_view(
            registry.display_names.deep_view(),
        )),
        action@ == "open_app"@ ==> match r {
            ActionStep::LaunchExecutable { path } => resolution_spec(
                *registry,
                normalize_chars(value@),
                Some(path@),
            ),
            ActionStep::ResolveNatively { name } => resolution_spec(
                *registry,
                normalize_chars(value@),
                None,
            ) && name@ == trim_spec(value@) && shell_safe_name(trim_spec(value@)),
            ActionStep::Done(resp) => resolution_spec(*registry, normalize_chars(value@), None)
                && !shell_safe_name(trim_spec(value@)) && resp@ == open_app_failure_view(
                value@,
                "Unknown app: "@ + value@,
            ),
            _ => false,
        },
        action@ == "open_url"@ ==> match r {
            ActionStep::OpenUrlExternally { url } => valid_url_spec(value@) && url@ == value@,
            ActionStep::Done(resp) => !valid_url_spec(value@) && resp@ == invalid_url_view(),
            _ => false,
        },
        action@ == "kill_process"@ ==> (r matches ActionStep::KillProcessByName { name } && name@
            == value@),
        action@ != "list_apps"@ && action@ != "open_app"@ && action@ != "open_url"@ && action@
            != "kill_process"@ ==> (r matches ActionStep::Done(resp) && resp@
            == unknown_action_view(action@)),
{
    proof {
        reveal_strlit("list_apps");
        reveal_strlit("open_app");
        reveal_strlit("open_url");
        reveal_strlit("kill_process");
        assert("open_app"@[5] != "open_url"@[5]);
    }
    if str_eq(action, "list_apps") {
        ActionStep::Done(list_apps_response(registry))
    } else if str_eq(action, "open_app") {
        match resolve_app(registry, value) {
            Some(path) => ActionStep::LaunchExecutable { path },
            None => match sanitize_windows_app_name(value) {
                Ok(name) => ActionStep::ResolveNatively { name },
                Err(_) => {
                    let err = crate::actions::unknown_app_error(value);
                    ActionStep::Done(open_app_failure_response(value, err.as_str()))
                },
            },
        }
    } else if str_eq(action, "open_url") {
        if is_valid_url(value) {
            ActionStep::OpenUrlExternally { url: String::from_str(value) }
        } else {
            ActionStep::Done(invalid_url_response())
        }
    } else if str_eq(action, "kill_process") {
        ActionStep::KillProcessByName { name: String::from_str(value) }
    } else {
        ActionStep::Done(unknown_action_response(action))
    }
}

} // verus!
