//! The record store behind the user interface: the imported tunnels, the
//! chosen applications, and the enabled/last-used marks. The store works
//! on an in-memory state snapshot; reading and writing its backing file
//! is its caller's business.

use vstd::prelude::*;
use crate::errors::StorageError;
use crate::text::str_eq;

verus! {

/// An imported tunnel configuration.
#[derive(Debug)]
pub struct Tunnel {
    pub id: String,
    pub name: String,
    pub path: String,
}

#[verifier::ext_equal]
pub struct TunnelModel {
    pub id: Seq<char>,
    pub name: Seq<char>,
    pub path: Seq<char>,
}

impl View for Tunnel {
    type V = TunnelModel;

    open spec fn view(&self) -> TunnelModel {
        TunnelModel { id: self.id@, name: self.name@, path: self.path@ }
    }
}

impl DeepView for Tunnel {
    type V = TunnelModel;

    open spec fn deep_view(&self) -> TunnelModel {
        self.view()
    }
}

impl Clone for Tunnel {
    fn clone(&self) -> (r: Self)
        ensures
            r@ == self@,
    {
        Tunnel { id: self.id.clone(), name: self.name.clone(), path: self.path.clone() }
    }
}

/// An application routed through the sandbox.
#[derive(Debug)]
pub struct AppItem {
    pub id: String,
    pub label: String,
    pub path: String,
}

#[verifier::ext_equal]
pub struct AppItemModel {
    pub id: Seq<char>,
    pub label: Seq<char>,
    pub path: Seq<char>,
}

impl View for AppItem {
    type V = AppItemModel;

    open spec fn view(&self) -> AppItemModel {
        AppItemModel { id: self.id@, label: self.label@, path: self.path@ }
    }
}

impl DeepView for AppItem {
    type V = AppItemModel;

    open spec fn deep_view(&self) -> AppItemModel {
        self.view()
    }
}

impl Clone for AppItem {
    fn clone(&self) -> (r: Self)
        ensures
            r@ == self@,
    {
        AppItem { id: self.id.clone(), label: self.label.clone(), path: self.path.clone() }
    }
}

/// Everything the application remembers between runs.
#[derive(Debug)]
pub struct AppStateFile {
    pub tunnels: Vec<Tunnel>,
    pub apps: Vec<AppItem>,
    pub last_tunnel_id: Option<String>,
    pub last_app_id: Option<String>,
    pub vpn_enabled: bool,
}

#[verifier::ext_equal]
pub struct AppStateModel {
    pub tunnels: Seq<TunnelModel>,
    pub apps: Seq<AppItemModel>,
    pub last_tunnel_id: Option<Seq<char>>,
    pub last_app_id: Option<Seq<char>>,
    pub vpn_enabled: bool,
}

impl View for AppStateFile {
    type V = AppStateModel;

    open spec fn view(&self) -> AppStateModel {
        AppStateModel {
            tunnels: self.tunnels.deep_view(),
            apps: self.apps.deep_view(),
            last_tunnel_id: match self.last_tunnel_id {
                Some(ref s) => Some(s@),
                None => None,
            },
            last_app_id: match self.last_app_id {
                Some(ref s) => Some(s@),
                None => None,
            },
            vpn_enabled: self.vpn_enabled,
        }
    }
}

impl AppStateFile {
    /// An empty state: nothing imported, nothing chosen, sandbox off.
    pub fn empty() -> (r: Self)
        ensures
            r@.tunnels.len() == 0,
            r@.apps.len() == 0,
            r@.last_tunnel_id is None,
            r@.last_app_id is None,
            !r@.vpn_enabled,
    {
        AppStateFile {
            tunnels: Vec::new(),
            apps: Vec::new(),
            last_tunnel_id: None,
            last_app_id: None,
            vpn_enabled: false,
        }
    }
}

fn clone_tunnels(ts: &Vec<Tunnel>) -> (r: Vec<Tunnel>)
    ensures
        r.deep_view() == ts.deep_view(),
{
    let mut r: Vec<Tunnel> = Vec::new();
    let n = ts.len();
    let mut i: usize = 0;
    while i < n
        invariant
            0 <= i <= n == ts@.len(),
            r@.len() == i,
            forall|j: int| 0 <= j < i ==> r.deep_view()[j] == ts.deep_view()[j],
        decreases n - i,
    {
        r.push(ts[i].clone());
        i = i + 1;
    }
    proof {
        assert(r.deep_view() =~= ts.deep_view());
    }
    r
}

fn clone_apps(xs: &Vec<AppItem>) -> (r: Vec<AppItem>)
    ensures
        r.deep_view() == xs.deep_view(),
{
    let mut r: Vec<AppItem> = Vec::new();
    let n = xs.len();
    let mut i: usize = 0;
    while i < n
        invariant
            0 <= i <= n == xs@.len(),
            r@.len() == i,
            forall|j: int| 0 <= j < i ==> r.deep_view()[j] == xs.deep_view()[j],
        decreases n - i,
    {
        r.push(xs[i].clone());
        i = i + 1;
    }
    proof {
        assert(r.deep_view() =~= xs.deep_view());
    }
    r
}

impl Clone for AppStateFile {
    fn clone(&self) -> (r: Self)
        ensures
            r@ == self@,
    {
        let r = AppStateFile {
            tunnels: clone_tunnels(&self.tunnels),
            apps: clone_apps(&self.apps),
            last_tunnel_id: match &self.last_tunnel_id {
                Some(s) => Some(s.clone()),
                None => None,
            },
            last_app_id: match &self.last_app_id {
                Some(s) => Some(s.clone()),
                None => None,
            },
            vpn_enabled: self.vpn_enabled,
        };
        proof {
            assert(r@ =~= self@);
        }
        r
    }
}

/// A fresh record id.
///
/// Relies on `uuid::Uuid::new_v4` and `Display` for `Uuid`: the
/// hyphenated form of a UUID is 36 characters.
#[verifier::external_body]
fn fresh_id() -> (r: String)
    ensures
        r@.len() == 36,
{
    uuid::Uuid::new_v4().to_string()
}

/// The first tunnel carrying the id, if any.
pub open spec fn find_tunnel_spec(ts: Seq<TunnelModel>, id: Seq<char>) -> Option<TunnelModel>
    decreases ts.len(),
{
    if ts.len() == 0 {
        None
    } else if ts[0].id == id {
        Some(ts[0])
    } else {
        find_tunnel_spec(ts.drop_first(), id)
    }
}

/// The first application carrying the id, if any.
pub open spec fn find_app_spec(xs: Seq<AppItemModel>, id: Seq<char>) -> Option<AppItemModel>
    decreases xs.len(),
{
    if xs.len() == 0 {
        None
    } else if xs[0].id == id {
        Some(xs[0])
    } else {
        find_app_spec(xs.drop_first(), id)
    }
}

/// The applications left once every one carrying the id is removed.
pub open spec fn remove_app_spec(xs: Seq<AppItemModel>, id: Seq<char>) -> Seq<AppItemModel>
    decreases xs.len(),
{
    if xs.len() == 0 {
        Seq::empty()
    } else if xs.last().id == id {
        remove_app_spec(xs.drop_last(), id)
    } else {
        remove_app_spec(xs.drop_last(), id) + seq![xs.last()]
    }
}

/// The last `max` lines of a log, oldest first — or all of them when
/// there are no more than `max`.
pub fn tail_lines(lines: &Vec<String>, max: usize) -> (r: Vec<String>)
    ensures
        lines@.len() <= max ==> r.deep_view() == lines.deep_view(),
        lines@.len() > max ==> r.deep_view() == lines.deep_view().skip(
            lines@.len() - max as int,
        ),
{
    let n = lines.len();
    let start: usize = if n > max {
        n - max
    } else {
        0
    };
    let mut r: Vec<String> = Vec::new();
    let mut i: usize = start;
    while i < n
        invariant
            start <= i <= n == lines@.len(),
            r@.len() == i - start,
            forall|j: int| 0 <= j < i - start ==> r.deep_view()[j] == lines.deep_view()[start + j],
        decreases n - i,
    {
        let ghost old_r = r.deep_view();
        proof {
            assert(lines.deep_view()[i as int] =~= lines@[i as int]@);
        }
        r.push(lines[i].clone());
        proof {
            assert(r.deep_view() =~~= old_r.push(lines.deep_view()[i as int]));
        }
        i = i + 1;
    }
    proof {
        if lines@.len() <= max {
            assert(r.deep_view() =~= lines.deep_view());
        } else {
            assert(r.deep_view() =~= lines.deep_view().skip(lines@.len() - max as int));
        }
    }
    r
}

/// The in-memory record store. Loading it from disk and writing it back
/// are the caller's steps; every rule about its content lives here.
pub struct AppStateStore {
    state: AppStateFile,
    data_dir: String,
    log_path: String,
}

impl AppStateStore {
    /// A store over a loaded state, rooted at the given data directory.
    pub fn new(data_dir: String, log_path: String, state: AppStateFile) -> (r: Self)
        ensures
            r.spec_state() == state@,
            r.spec_data_dir() == data_dir@,
            r.spec_log_path() == log_path@,
    {
        AppStateStore { state, data_dir, log_path }
    }

    /// The store's current state, as a mathematical value.
    pub closed spec fn spec_state(&self) -> AppStateModel {
        self.state@
    }

    /// The data directory the store is rooted at.
    pub closed spec fn spec_data_dir(&self) -> Seq<char> {
        self.data_dir@
    }

    /// Where the application's log lives.
    pub closed spec fn spec_log_path(&self) -> Seq<char> {
        self.log_path@
    }

    pub fn data_dir(&self) -> (r: &String)
        ensures
            r@ == self.spec_data_dir(),
    {
        &self.data_dir
    }

    pub fn log_path(&self) -> (r: &String)
        ensures
            r@ == self.spec_log_path(),
    {
        &self.log_path
    }

    /// A copy of the current state.
    pub fn state_snapshot(&self) -> (r: AppStateFile)
        ensures
            r@ == self.spec_state(),
    {
        self.state.clone()
    }

    /// Records an imported tunnel configuration under a fresh id: its
    /// stored copy's path is `<data_dir>/<id>.conf`, and it becomes the
    /// last-used tunnel. The caller copies the file to that path.
    pub fn import_conf(&mut self, name: String) -> (r: Tunnel)
        ensures
            r@.name == name@,
            r@.id.len() == 36,
            r@.path == old(self).spec_data_dir() + "/"@ + r@.id + ".conf"@,
            final(self).spec_state().tunnels == old(self).spec_state().tunnels.push(r@),
            final(self).spec_state().last_tunnel_id == Some(r@.id),
            final(self).spec_state().apps == old(self).spec_state().apps,
            final(self).spec_state().last_app_id == old(self).spec_state().last_app_id,
            final(self).spec_state().vpn_enabled == old(self).spec_state().vpn_enabled,
            final(self).spec_data_dir() == old(self).spec_data_dir(),
            final(self).spec_log_path() == old(self).spec_log_path(),
    {
        let id = fresh_id();
        let path = self.data_dir.clone().concat("/").concat(id.as_str()).concat(".conf");
        let tunnel = Tunnel { id: id.clone(), name, path };
        self.state.tunnels.push(tunnel.clone());
        self.state.last_tunnel_id = Some(id);
        proof {
            assert(final(self).spec_state().tunnels =~= old(self).spec_state().tunnels.push(
                tunnel@,
            ));
            assert(final(self).spec_state().apps =~= old(self).spec_state().apps);
        }
        tunnel
    }

    /// Records an application under a fresh id.
    pub fn add_app(&mut self, path: String, label: String) -> (r: AppItem)
        ensures
            r@.label == label@,
            r@.path == path@,
            r@.id.len() == 36,
            final(self).spec_state().apps == old(self).spec_state().apps.push(r@),
            final(self).spec_state().tunnels == old(self).spec_state().tunnels,
            final(self).spec_state().last_tunnel_id == old(self).spec_state().last_tunnel_id,
            final(self).spec_state().last_app_id == old(self).spec_state().last_app_id,
            final(self).spec_state().vpn_enabled == old(self).spec_state().vpn_enabled,
            final(self).spec_data_dir() == old(self).spec_data_dir(),
            final(self).spec_log_path() == old(self).spec_log_path(),
    {
        let id = fresh_id();
        let app = AppItem { id, label, path };
        self.state.apps.push(app.clone());
        proof {
            assert(final(self).spec_state().apps =~= old(self).spec_state().apps.push(app@));
            assert(final(self).spec_state().tunnels =~= old(self).spec_state().tunnels);
        }
        app
    }

    /// Removes the application carrying the id; `AppNotFound` when no
    /// application does, and then nothing changes.
    pub fn remove_app(&mut self, app_id: &str) -> (r: Result<(), StorageError>)
        ensures
            final(self).spec_state().apps == remove_app_spec(old(self).spec_state().apps, app_id@),
            r is Ok <==> exists|j: int|
                0 <= j < old(self).spec_state().apps.len() && (#[trigger] old(
                    self,
                ).spec_state().apps[j]).id == app_id@,
            r matches Err(e) ==> e@ == crate::errors::StorageErrorModel::AppNotFound,
            final(self).spec_state().tunnels == old(self).spec_state().tunnels,
            final(self).spec_state().last_tunnel_id == old(self).spec_state().last_tunnel_id,
            final(self).spec_state().last_app_id == old(self).spec_state().last_app_id,
            final(self).spec_state().vpn_enabled == old(self).spec_state().vpn_enabled,
            final(self).spec_data_dir() == old(self).spec_data_dir(),
            final(self).spec_log_path() == old(self).spec_log_path(),
    {
        let ghost xs = self.state.apps.deep_view();
        let n = self.state.apps.len();
        let mut kept: Vec<AppItem> = Vec::new();
        let mut found = false;
        proof {
            assert(xs.subrange(0, 0) =~= Seq::<AppItemModel>::empty());
            assert(kept.deep_view() =~= remove_app_spec(xs.subrange(0, 0), app_id@));
        }
        let mut i: usize = 0;
        while i < n
            invariant
                0 <= i <= n == xs.len(),
                xs == self.state.apps.deep_view(),
                self.state.apps@.len() == n,
                kept.deep_view() == remove_app_spec(xs.subrange(0, i as int), app_id@),
                found == exists|j: int| 0 <= j < i && (#[trigger] xs[j]).id == app_id@,
            decreases n - i,
        {
            let ghost pre = xs.subrange(0, i as int);
            let ghost cur = xs.subrange(0, i + 1);
            proof {
                assert(cur.drop_last() =~= pre);
                assert(cur.last() == xs[i as int]);
                assert(xs[i as int] =~= self.state.apps@[i as int]@);
            }
            let item = &self.state.apps[i];
            if str_eq(item.id.as_str(), app_id) {
                found = true;
            } else {
                let ghost old_kept = kept.deep_view();
                kept.push(item.clone());
                proof {
                    assert(kept.deep_view() =~~= old_kept + seq![xs[i as int]]);
                }
            }
            i = i + 1;
        }
        proof {
            assert(xs.subrange(0, n as int) =~= xs);
        }
        self.state.apps = kept;
        if found {
            Ok(())
        } else {
            Err(StorageError::AppNotFound)
        }
    }

    /// Marks the sandbox as enabled or disabled.
    pub fn set_vpn_enabled(&mut self, enabled: bool)
        ensures
            final(self).spec_state().vpn_enabled == enabled,
            final(self).spec_state().tunnels == old(self).spec_state().tunnels,
            final(self).spec_state().apps == old(self).spec_state().apps,
            final(self).spec_state().last_tunnel_id == old(self).spec_state().last_tunnel_id,
            final(self).spec_state().last_app_id == old(self).spec_state().last_app_id,
            final(self).spec_data_dir() == old(self).spec_data_dir(),
            final(self).spec_log_path() == old(self).spec_log_path(),
    {
        self.state.vpn_enabled = enabled;
    }

    /// Remembers the tunnel last acted on.
    pub fn set_last_tunnel_id(&mut self, tunnel_id: &str)
        ensures
            final(self).spec_state().last_tunnel_id == Some(tunnel_id@),
            final(self).spec_state().tunnels == old(self).spec_state().tunnels,
            final(self).spec_state().apps == old(self).spec_state().apps,
            final(self).spec_state().last_app_id == old(self).spec_state().last_app_id,
            final(self).spec_state().vpn_enabled == old(self).spec_state().vpn_enabled,
            final(self).spec_data_dir() == old(self).spec_data_dir(),
            final(self).spec_log_path() == old(self).spec_log_path(),
    {
        self.state.last_tunnel_id = Some(tunnel_id.to_owned());
    }

    /// Remembers the application last launched.
    pub fn set_last_app_id(&mut self, app_id: &str)
        ensures
            final(self).spec_state().last_app_id == Some(app_id@),
            final(self).spec_state().tunnels == old(self).spec_state().tunnels,
            final(self).spec_state().apps == old(self).spec_state().apps,
            final(self).spec_state().last_tunnel_id == old(self).spec_state().last_tunnel_id,
            final(self).spec_state().vpn_enabled == old(self).spec_state().vpn_enabled,
            final(self).spec_data_dir() == old(self).spec_data_dir(),
            final(self).spec_log_path() == old(self).spec_log_path(),
    {
        self.state.last_app_id = Some(app_id.to_owned());
    }

    /// The first tunnel carrying the id.
    pub fn find_tunnel(&self, id: &str) -> (r: Option<Tunnel>)
        ensures
            match r {
                Some(t) => find_tunnel_spec(self.spec_state().tunnels, id@) == Some(t@),
                None => find_tunnel_spec(self.spec_state().tunnels, id@) is None,
            },
    {
        let ghost ts = self.state.tunnels.deep_view();
        let n = self.state.tunnels.len();
        proof {
            assert(ts.skip(0) =~= ts);
        }
        let mut i: usize = 0;
        while i < n
            invariant
                0 <= i <= n == ts.len(),
                ts == self.state.tunnels.deep_view(),
                self.state.tunnels@.len() == n,
                find_tunnel_spec(ts, id@) == find_tunnel_spec(ts.skip(i as int), id@),
            decreases n - i,
        {
            let ghost rest = ts.skip(i as int);
            proof {
                assert(rest.drop_first() =~= ts.skip(i + 1));
                assert(rest[0] == ts[i as int]);
                assert(ts[i as int] =~= self.state.tunnels@[i as int]@);
            }
            let t = &self.state.tunnels[i];
            if str_eq(t.id.as_str(), id) {
                return Some(t.clone());
            }
            i = i + 1;
        }
        proof {
            assert(ts.skip(n as int).len() == 0);
        }
        None
    }

    /// The first application carrying the id.
    pub fn find_app(&self, id: &str) -> (r: Option<AppItem>)
        ensures
            match r {
                Some(a) => find_app_spec(self.spec_state().apps, id@) == Some(a@),
                None => find_app_spec(self.spec_state().apps, id@) is None,
            },
    {
        let ghost xs = self.state.apps.deep_view();
        let n = self.state.apps.len();
        proof {
            assert(xs.skip(0) =~= xs);
        }
        let mut i: usize = 0;
        while i < n
            invariant
                0 <= i <= n == xs.len(),
                xs == self.state.apps.deep_view(),
                self.state.apps@.len() == n,
                find_app_spec(xs, id@) == find_app_spec(xs.skip(i as int), id@),
            decreases n - i,
        {
            let ghost rest = xs.skip(i as int);
            proof {
                assert(rest.drop_first() =~= xs.skip(i + 1));
                assert(rest[0] == xs[i as int]);
                assert(xs[i as int] =~= self.state.apps@[i as int]@);
            }
            let a = &self.state.apps[i];
            if str_eq(a.id.as_str(), id) {
                return Some(a.clone());
            }
            i = i + 1;
        }
        proof {
            assert(xs.skip(n as int).len() == 0);
        }
        None
    }
}

} // verus!
