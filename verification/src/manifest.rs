//! Host capability manifests as routing and negotiation read them.

use vstd::prelude::*;
use crate::json::{JsonValue, JsonView, json_view};
use crate::text::{seq_has, contains_str};

verus! {

/// A tool a host offers: its `tools.<ns>.<tool_id>` capability id plus the
/// full descriptor document.
#[derive(Debug)]
pub struct ToolDescriptor {
    pub capability_id: String,
    pub descriptor: JsonValue,
}

/// A host capability manifest.
#[derive(Debug)]
pub struct PeerManifest {
    pub host_id: String,
    pub capabilities: Vec<String>,
    pub roles: Vec<String>,
    pub namespaces: Vec<String>,
    /// `authority.scope_key`, when the host declares an authority scope.
    pub authority_scope_key: Option<String>,
    pub tools: Vec<ToolDescriptor>,
}

/// The content of a tool descriptor.
pub struct ToolView {
    pub capability_id: Seq<char>,
    pub descriptor: JsonView,
}

/// The content of a manifest.
pub struct ManifestView {
    pub host_id: Seq<char>,
    pub capabilities: Seq<Seq<char>>,
    pub roles: Seq<Seq<char>>,
    pub namespaces: Seq<Seq<char>>,
    pub scope_key: Option<Seq<char>>,
    pub tools: Seq<ToolView>,
}

/// The characters of each string in a list.
pub open spec fn strs(v: Seq<String>) -> Seq<Seq<char>> {
    v.map_values(|s: String| s@)
}

/// The characters of an optional string.
pub open spec fn opt_str(o: Option<String>) -> Option<Seq<char>> {
    match o {
        Some(s) => Some(s@),
        None => None,
    }
}

/// The content of a tool descriptor.
pub open spec fn tool_view(t: ToolDescriptor) -> ToolView {
    ToolView { capability_id: t.capability_id@, descriptor: json_view(t.descriptor) }
}

/// The content of a list of tool descriptors.
pub open spec fn tools_view(v: Seq<ToolDescriptor>) -> Seq<ToolView> {
    v.map_values(|t: ToolDescriptor| tool_view(t))
}

/// The content of a manifest.
pub open spec fn manifest_view(m: PeerManifest) -> ManifestView {
    ManifestView {
        host_id: m.host_id@,
        capabilities: strs(m.capabilities@),
        roles: strs(m.roles@),
        namespaces: strs(m.namespaces@),
        scope_key: opt_str(m.authority_scope_key),
        tools: tools_view(m.tools@),
    }
}

/// `seq_has` is membership in the character view.
pub proof fn lemma_seq_has_strs(v: Seq<String>, s: Seq<char>)
    ensures
        seq_has(v, s) == strs(v).contains(s),
{
    if seq_has(v, s) {
        let i = choose|i: int| 0 <= i < v.len() && #[trigger] v[i]@ == s;
        assert(strs(v)[i] == s);
    }
    if strs(v).contains(s) {
        let i = choose|i: int| 0 <= i < strs(v).len() && strs(v)[i] == s;
        assert(v[i]@ == s);
    }
}

/// A copy of a list of strings.
pub fn clone_strings(v: &Vec<String>) -> (res: Vec<String>)
    ensures
        strs(res@) == strs(v@),
{
    let mut out: Vec<String> = Vec::new();
    let mut i: usize = 0;
    while i < v.len()
        invariant
            i <= v@.len(),
            out@.len() == i,
            forall|j: int| 0 <= j < i ==> (#[trigger] out@[j])@ == v@[j]@,
        decreases v@.len() - i,
    {
        out.push(v[i].clone());
        i = i + 1;
    }
    assert(strs(out@) =~= strs(v@));
    out
}

/// A copy of an optional string.
pub fn clone_opt_string(o: &Option<String>) -> (res: Option<String>)
    ensures
        opt_str(res) == opt_str(*o),
{
    match o {
        Some(s) => Some(s.clone()),
        None => None,
    }
}

/// A copy of a tool descriptor.
pub fn clone_tool(t: &ToolDescriptor) -> (res: ToolDescriptor)
    ensures
        tool_view(res) == tool_view(*t),
{
    ToolDescriptor { capability_id: t.capability_id.clone(), descriptor: t.descriptor.deep_clone() }
}

/// A copy of a list of tool descriptors.
pub fn clone_tools(v: &Vec<ToolDescriptor>) -> (res: Vec<ToolDescriptor>)
    ensures
        tools_view(res@) == tools_view(v@),
{
    let mut out: Vec<ToolDescriptor> = Vec::new();
    let mut i: usize = 0;
    while i < v.len()
        invariant
            i <= v@.len(),
            out@.len() == i,
            forall|j: int| 0 <= j < i ==> tool_view(#[trigger] out@[j]) == tool_view(v@[j]),
        decreases v@.len() - i,
    {
        out.push(clone_tool(&v[i]));
        i = i + 1;
    }
    assert(tools_view(out@) =~= tools_view(v@));
    out
}

/// A copy of a manifest.
pub fn clone_manifest(m: &PeerManifest) -> (res: PeerManifest)
    ensures
        manifest_view(res) == manifest_view(*m),
{
    PeerManifest {
        host_id: m.host_id.clone(),
        capabilities: clone_strings(&m.capabilities),
        roles: clone_strings(&m.roles),
        namespaces: clone_strings(&m.namespaces),
        authority_scope_key: clone_opt_string(&m.authority_scope_key),
        tools: clone_tools(&m.tools),
    }
}

/// The negotiated capability set: the local capabilities, in local order,
/// that the remote also advertises.
pub open spec fn negotiated_view(local: Seq<Seq<char>>, remote: Seq<Seq<char>>) -> Seq<Seq<char>>
    decreases local.len(),
{
    if local.len() == 0 {
        Seq::empty()
    } else {
        let kept = negotiated_view(local.drop_last(), remote);
        if remote.contains(local.last()) {
            kept.push(local.last())
        } else {
            kept
        }
    }
}

/// The capabilities both hello manifests advertise (local order).
pub fn negotiated_capabilities(local: &Vec<String>, remote: &Vec<String>) -> (res: Vec<String>)
    ensures
        strs(res@) == negotiated_view(strs(local@), strs(remote@)),
{
    let mut out: Vec<String> = Vec::new();
    let mut i: usize = 0;
    while i < local.len()
        invariant
            i <= local@.len(),
            strs(out@) == negotiated_view(strs(local@).subrange(0, i as int), strs(remote@)),
        decreases local@.len() - i,
    {
        let keep = contains_str(remote, local[i].as_str());
        proof {
            lemma_seq_has_strs(remote@, local@[i as int]@);
            let pre = strs(local@).subrange(0, i as int);
            assert(strs(local@).subrange(0, i + 1).drop_last() =~= pre);
        }
        if keep {
            let ghost before = out@;
            out.push(local[i].clone());
            assert(strs(out@) =~= strs(before).push(local@[i as int]@));
        }
        i = i + 1;
    }
    assert(strs(local@).subrange(0, local@.len() as int) =~= strs(local@));
    out
}

/// Negotiation is intersection: a capability is negotiated exactly when
/// both hello manifests advertise it.
pub proof fn law_negotiated_is_intersection(local: Seq<Seq<char>>, remote: Seq<Seq<char>>, c: Seq<char>)
    ensures
        negotiated_view(local, remote).contains(c) <==> (local.contains(c) && remote.contains(c)),
    decreases local.len(),
{
    if local.len() > 0 {
        law_negotiated_is_intersection(local.drop_last(), remote, c);
        let kept = negotiated_view(local.drop_last(), remote);
        if local.contains(c) && remote.contains(c) {
            let i = choose|i: int| 0 <= i < local.len() && local[i] == c;
            if i == local.len() - 1 {
                assert(negotiated_view(local, remote) == kept.push(c));
                assert(kept.push(c)[kept.len() as int] == c);
            } else {
                assert(local.drop_last()[i] == c);
                let j = choose|j: int| 0 <= j < kept.len() && kept[j] == c;
                if remote.contains(local.last()) {
                    assert(kept.push(local.last())[j] == c);
                }
            }
        }
        if negotiated_view(local, remote).contains(c) {
            let j = choose|j: int| 0 <= j < negotiated_view(local, remote).len() && negotiated_view(local, remote)[j] == c;
            if remote.contains(local.last()) && j == kept.len() {
                assert(local[local.len() - 1] == c);
            } else {
                assert(kept[j] == c);
                let i = choose|i: int| 0 <= i < local.drop_last().len() && local.drop_last()[i] == c;
                assert(local[i] == c);
            }
        }
    }
}

} // verus!
