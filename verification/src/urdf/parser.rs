use vstd::prelude::*;

use crate::kinematics::joint::{count_actuated, dof_of, JointType};
use crate::text::{bounded_views, equals, same_chars, is_float_literal, is_float_literal_chars, split_bounds, words, Separator};
use crate::urdf::xml::{
    attribute, attribute_at, child_named, child_named_at, element_child_at, element_child_from,
    nodes_view, parse_result_view, parse_xml, xml_document, xml_tree_well_formed, XmlNode,
    XmlNodeView,
};

verus! {

// ---------------------------------------------------------------------------
// Joint type names
// ---------------------------------------------------------------------------

/// The joint type a URDF `type` attribute names; anything unknown is fixed.
pub open spec fn joint_type_from_attr(s: Seq<char>) -> JointType {
    if s == "revolute"@ {
        JointType::Revolute
    } else if s == "continuous"@ {
        JointType::Continuous
    } else if s == "prismatic"@ {
        JointType::Prismatic
    } else {
        JointType::Fixed
    }
}

/// Reads a URDF joint `type` attribute.
pub fn urdf_joint_type(s: &[char]) -> (t: JointType)
    ensures
        t == joint_type_from_attr(s@),
{
    if equals(s, "revolute") {
        JointType::Revolute
    } else if equals(s, "continuous") {
        JointType::Continuous
    } else if equals(s, "prismatic") {
        JointType::Prismatic
    } else {
        JointType::Fixed
    }
}

/// The URDF `type` attribute written for a joint type.
pub fn urdf_joint_type_label(t: JointType) -> (s: &'static str)
    ensures
        joint_type_from_attr(s@) == t,
{
    proof {
        reveal_strlit("revolute");
        reveal_strlit("continuous");
        reveal_strlit("prismatic");
        reveal_strlit("fixed");
    }
    let s = match t {
        JointType::Revolute => "revolute",
        JointType::Continuous => "continuous",
        JointType::Prismatic => "prismatic",
        JointType::Fixed => "fixed",
    };
    assert("revolute"@.len() == 8 && "continuous"@.len() == 10 && "prismatic"@.len() == 9);
    s
}

// ---------------------------------------------------------------------------
// Number lists
// ---------------------------------------------------------------------------

/// The words that are floating-point literals, in order
/// (`filter_map(|p| p.parse().ok())`).
pub open spec fn float_words(ws: Seq<Seq<char>>) -> Seq<Seq<char>>
    decreases ws.len(),
{
    if ws.len() == 0 {
        Seq::empty()
    } else {
        let prev = float_words(ws.drop_last());
        if is_float_literal(ws.last()) {
            prev.push(ws.last())
        } else {
            prev
        }
    }
}

/// The numbers of a whitespace-separated list when exactly `n` of its words
/// are numbers.
pub open spec fn number_list(s: Seq<char>, n: nat) -> Option<Seq<Seq<char>>> {
    let f = float_words(words(s));
    if f.len() == n {
        Some(f)
    } else {
        None
    }
}

pub open spec fn chars_views(v: Seq<Vec<char>>) -> Seq<Seq<char>> {
    v.map_values(|c: Vec<char>| c@)
}

/// The numbers of `s` when exactly `n` of its words are numbers.
pub fn number_list_of(s: &[char], n: usize) -> (r: Option<Vec<Vec<char>>>)
    ensures
        match r {
            Some(v) => number_list(s@, n as nat) == Some(chars_views(v@)),
            None => number_list(s@, n as nat) is None,
        },
{
    let bounds = split_bounds(s, Separator::Whitespace);
    let ghost ws = words(s@);
    let mut found: Vec<Vec<char>> = Vec::new();
    let mut k: usize = 0;
    while k < bounds.len()
        invariant
            k <= bounds@.len() == ws.len(),
            ws == bounded_views(s@, bounds@),
            forall|j: int| 0 <= j < bounds@.len() ==> #[trigger] bounds@[j].0 < bounds@[j].1 <= s@.len(),
            chars_views(found@) == float_words(ws.take(k as int)),
        decreases bounds@.len() - k,
    {
        let (p, q) = bounds[k];
        let w = &s[p..q];
        assert(w@ == ws[k as int]);
        assert(ws.take(k + 1).drop_last() =~= ws.take(k as int));
        let ghost before = chars_views(found@);
        if is_float_literal_chars(w) {
            found.push(vstd::slice::slice_to_vec(w));
            assert(chars_views(found@) =~= before.push(w@));
        }
        k = k + 1;
    }
    assert(ws.take(k as int) =~= ws);
    if found.len() == n {
        Some(found)
    } else {
        None
    }
}

// ---------------------------------------------------------------------------
// Robot description model
// ---------------------------------------------------------------------------

/// A joint as a URDF description gives it. Numbers are kept as literal
/// text; an absent origin, axis or limit list stands for the defaults
/// (zero offsets, the z axis, no limits).
#[derive(Debug, Clone)]
pub struct UrdfJoint {
    pub name: Vec<char>,
    pub joint_type: JointType,
    pub parent_link: Vec<char>,
    pub child_link: Vec<char>,
    pub origin_xyz: Option<Vec<Vec<char>>>,
    pub origin_rpy: Option<Vec<Vec<char>>>,
    pub axis: Option<Vec<Vec<char>>>,
    pub limits: Option<(Vec<char>, Vec<char>)>,
}

/// Where the color of a chain link comes from.
#[derive(Debug, Clone)]
pub enum UrdfLinkColor {
    /// The four RGBA numbers of the link's visual material.
    Rgba(Vec<Vec<char>>),
    /// The link is described but gives no usable color: the default gray.
    LinkDefault,
    /// The link is not described: entry `i` of the six-color palette.
    Palette(usize),
}

/// A robot read from a URDF description: its name, its joints in document
/// order, the positions (in `joints`) of the joints along the kinematic chain
/// from the root link, and the color of the link after each of them.
#[derive(Debug, Clone)]
pub struct UrdfRobot {
    pub name: Vec<char>,
    pub joints: Vec<UrdfJoint>,
    pub chain: Vec<usize>,
    pub colors: Vec<UrdfLinkColor>,
}

pub struct SpecUrdfJoint {
    pub name: Seq<char>,
    pub joint_type: JointType,
    pub parent_link: Seq<char>,
    pub child_link: Seq<char>,
    pub origin_xyz: Option<Seq<Seq<char>>>,
    pub origin_rpy: Option<Seq<Seq<char>>>,
    pub axis: Option<Seq<Seq<char>>>,
    pub limits: Option<(Seq<char>, Seq<char>)>,
}

pub enum SpecLinkColor {
    Rgba(Seq<Seq<char>>),
    LinkDefault,
    Palette(usize),
}

pub struct SpecUrdfRobot {
    pub name: Seq<char>,
    pub joints: Seq<SpecUrdfJoint>,
    pub chain: Seq<usize>,
    pub colors: Seq<SpecLinkColor>,
}

impl SpecUrdfRobot {
    /// Every chain position names one of the joints, and each chain joint
    /// has its color.
    pub open spec fn well_formed(self) -> bool {
        &&& self.colors.len() == self.chain.len()
        &&& forall|m: int| 0 <= m < self.chain.len() ==> #[trigger] self.chain[m] < self.joints.len()
    }

    /// The types of the chain's joints, from the root link outwards.
    pub open spec fn chain_types(self) -> Seq<JointType> {
        Seq::new(self.chain.len(), |k: int| self.joints[self.chain[k] as int].joint_type)
    }
}

pub open spec fn opt_list_view(o: Option<Vec<Vec<char>>>) -> Option<Seq<Seq<char>>> {
    match o {
        Some(v) => Some(chars_views(v@)),
        None => None,
    }
}

impl View for UrdfJoint {
    type V = SpecUrdfJoint;

    open spec fn view(&self) -> SpecUrdfJoint {
        SpecUrdfJoint {
            name: self.name@,
            joint_type: self.joint_type,
            parent_link: self.parent_link@,
            child_link: self.child_link@,
            origin_xyz: opt_list_view(self.origin_xyz),
            origin_rpy: opt_list_view(self.origin_rpy),
            axis: opt_list_view(self.axis),
            limits: match self.limits {
                Some((a, b)) => Some((a@, b@)),
                None => None,
            },
        }
    }
}

impl View for UrdfLinkColor {
    type V = SpecLinkColor;

    open spec fn view(&self) -> SpecLinkColor {
        match self {
            UrdfLinkColor::Rgba(v) => SpecLinkColor::Rgba(chars_views(v@)),
            UrdfLinkColor::LinkDefault => SpecLinkColor::LinkDefault,
            UrdfLinkColor::Palette(i) => SpecLinkColor::Palette(*i),
        }
    }
}

impl View for UrdfRobot {
    type V = SpecUrdfRobot;

    open spec fn view(&self) -> SpecUrdfRobot {
        SpecUrdfRobot {
            name: self.name@,
            joints: self.joints@.map_values(|j: UrdfJoint| j@),
            chain: self.chain@,
            colors: self.colors@.map_values(|c: UrdfLinkColor| c@),
        }
    }
}

// ---------------------------------------------------------------------------
// Reading a description
// ---------------------------------------------------------------------------

/// Attribute `name` of node `n`, or `default` when it is absent.
pub open spec fn attribute_or(doc: Seq<XmlNodeView>, n: usize, name: Seq<char>, default: Seq<char>) -> Seq<char> {
    match attribute(doc, n, name) {
        Some(v) => v,
        None => default,
    }
}

/// The `link` attribute of the first child of joint `j` named `tag` (empty
/// when there is no such child or attribute).
pub open spec fn link_reference(doc: Seq<XmlNodeView>, j: usize, tag: Seq<char>) -> Seq<char> {
    match child_named(doc, j, tag) {
        Some(c) => attribute_or(doc, c, "link"@, Seq::empty()),
        None => Seq::empty(),
    }
}

/// Three numbers from attribute `attr` of node `n`, if both exist.
pub open spec fn vec3_attribute(doc: Seq<XmlNodeView>, n: Option<usize>, attr: Seq<char>) -> Option<Seq<Seq<char>>> {
    match n {
        Some(o) => match attribute(doc, o, attr) {
            Some(v) => number_list(v, 3),
            None => None,
        },
        None => None,
    }
}

/// The `lower` and `upper` numbers of the first `limit` child of joint `j`,
/// when both are present and numbers.
pub open spec fn joint_limits(doc: Seq<XmlNodeView>, j: usize) -> Option<(Seq<char>, Seq<char>)> {
    match child_named(doc, j, "limit"@) {
        Some(l) => match (attribute(doc, l, "lower"@), attribute(doc, l, "upper"@)) {
            (Some(a), Some(b)) => if is_float_literal(a) && is_float_literal(b) {
                Some((a, b))
            } else {
                None
            },
            _ => None,
        },
        None => None,
    }
}

/// What a `joint` element `j` describes.
pub open spec fn joint_of(doc: Seq<XmlNodeView>, j: usize) -> SpecUrdfJoint {
    let origin = child_named(doc, j, "origin"@);
    SpecUrdfJoint {
        name: attribute_or(doc, j, "name"@, "joint"@),
        joint_type: joint_type_from_attr(attribute_or(doc, j, "type"@, "fixed"@)),
        parent_link: link_reference(doc, j, "parent"@),
        child_link: link_reference(doc, j, "child"@),
        origin_xyz: vec3_attribute(doc, origin, "xyz"@),
        origin_rpy: vec3_attribute(doc, origin, "rpy"@),
        axis: vec3_attribute(doc, child_named(doc, j, "axis"@), "xyz"@),
        limits: joint_limits(doc, j),
    }
}

/// The element children of `r` named `tag` among the nodes before `upto`, in order.
pub open spec fn element_children_named(doc: Seq<XmlNodeView>, r: usize, tag: Seq<char>, upto: int) -> Seq<usize>
    decreases upto,
{
    if upto <= 0 || upto > doc.len() {
        Seq::empty()
    } else {
        let prev = element_children_named(doc, r, tag, upto - 1);
        let i = upto - 1;
        if doc[i].parent == Some(r) && doc[i].is_element && doc[i].tag == tag {
            prev.push(i as usize)
        } else {
            prev
        }
    }
}

/// The joints described under the robot element `r`, in document order.
pub open spec fn joints_of(doc: Seq<XmlNodeView>, r: usize) -> Seq<SpecUrdfJoint> {
    element_children_named(doc, r, "joint"@, doc.len() as int).map_values(|j: usize| joint_of(doc, j))
}

/// The RGBA numbers of link element `l`'s visual material, if it gives four.
pub open spec fn link_rgba(doc: Seq<XmlNodeView>, l: usize) -> Option<Seq<Seq<char>>> {
    match child_named(doc, l, "visual"@) {
        Some(v) => match child_named(doc, v, "material"@) {
            Some(m) => match child_named(doc, m, "color"@) {
                Some(c) => match attribute(doc, c, "rgba"@) {
                    Some(s) => number_list(s, 4),
                    None => None,
                },
                None => None,
            },
            None => None,
        },
        None => None,
    }
}

/// The last `link` element under `r` (before `upto`) whose name is `name`:
/// later descriptions of a link replace earlier ones.
pub open spec fn last_link_named(doc: Seq<XmlNodeView>, r: usize, name: Seq<char>, upto: int) -> Option<usize>
    decreases upto,
{
    if upto <= 0 || upto > doc.len() {
        None
    } else {
        let i = upto - 1;
        if doc[i].parent == Some(r) && doc[i].is_element && doc[i].tag == "link"@ && attribute_or(
            doc,
            i as usize,
            "name"@,
            "link"@,
        ) == name {
            Some(i as usize)
        } else {
            last_link_named(doc, r, name, i)
        }
    }
}

/// The color of the `k`-th link of the chain, named `name`.
pub open spec fn chain_link_color(doc: Seq<XmlNodeView>, r: usize, name: Seq<char>, k: int) -> SpecLinkColor {
    match last_link_named(doc, r, name, doc.len() as int) {
        Some(l) => match link_rgba(doc, l) {
            Some(c) => SpecLinkColor::Rgba(c),
            None => SpecLinkColor::LinkDefault,
        },
        None => SpecLinkColor::Palette((k % 6) as usize),
    }
}

/// Some joint has `name` as its child link.
pub open spec fn is_child_link(joints: Seq<SpecUrdfJoint>, name: Seq<char>) -> bool {
    exists|k: int| 0 <= k < joints.len() && #[trigger] joints[k].child_link == name
}

/// The first joint at `from` or later whose parent link is not any joint's child.
pub open spec fn free_parent_from(joints: Seq<SpecUrdfJoint>, from: int) -> Option<int>
    decreases joints.len() - from,
{
    if from < 0 || from >= joints.len() {
        None
    } else if !is_child_link(joints, joints[from].parent_link) {
        Some(from)
    } else {
        free_parent_from(joints, from + 1)
    }
}

/// The root link: the first parent link that is no joint's child, or else the
/// parent link of the first joint.
pub open spec fn root_link(joints: Seq<SpecUrdfJoint>) -> Seq<char> {
    match free_parent_from(joints, 0) {
        Some(k) => joints[k].parent_link,
        None => joints[0].parent_link,
    }
}

/// The first joint at `from` or later whose parent link is `link`.
pub open spec fn joint_from_link(joints: Seq<SpecUrdfJoint>, link: Seq<char>, from: int) -> Option<int>
    decreases joints.len() - from,
{
    if from < 0 || from >= joints.len() {
        None
    } else if joints[from].parent_link == link {
        Some(from)
    } else {
        joint_from_link(joints, link, from + 1)
    }
}

/// The joints met walking from `link` down the chain (each step takes the
/// first joint leaving the current link and moves to its child link), when
/// the walk stops within `fuel` steps; `None` when it does not.
pub open spec fn chain_walk(joints: Seq<SpecUrdfJoint>, link: Seq<char>, fuel: nat) -> Option<Seq<usize>>
    decreases fuel,
{
    match joint_from_link(joints, link, 0) {
        None => Some(Seq::empty()),
        Some(k) => if fuel == 0 {
            None
        } else {
            match chain_walk(joints, joints[k].child_link, (fuel - 1) as nat) {
                Some(rest) => Some(seq![k as usize] + rest),
                None => None,
            }
        },
    }
}

pub proof fn lemma_joint_from_link(joints: Seq<SpecUrdfJoint>, link: Seq<char>, from: int)
    ensures
        joint_from_link(joints, link, from) matches Some(k) ==> from <= k < joints.len()
            && joints[k].parent_link == link,
    decreases joints.len() - from,
{
    if 0 <= from < joints.len() && joints[from].parent_link != link {
        lemma_joint_from_link(joints, link, from + 1);
    }
}

/// The link the walk from `link` ends at (when it ends within `fuel` steps).
pub open spec fn chain_end(joints: Seq<SpecUrdfJoint>, link: Seq<char>, fuel: nat) -> Seq<char>
    decreases fuel,
{
    match joint_from_link(joints, link, 0) {
        Some(k) => if fuel == 0 {
            link
        } else {
            chain_end(joints, joints[k].child_link, (fuel - 1) as nat)
        },
        None => link,
    }
}

/// An assembled chain is connected: it starts with a joint leaving the start
/// link, each joint leaves the link the previous one enters, and no joint
/// leaves the link the chain ends at.
pub proof fn lemma_chain_is_connected(joints: Seq<SpecUrdfJoint>, link: Seq<char>, fuel: nat)
    requires
        joints.len() <= usize::MAX,
        chain_walk(joints, link, fuel) is Some,
    ensures
        ({
            let c = chain_walk(joints, link, fuel)->0;
            &&& forall|m: int| 0 <= m < c.len() ==> #[trigger] c[m] < joints.len()
            &&& c.len() > 0 ==> joints[c[0] as int].parent_link == link
            &&& forall|m: int|
                0 <= m < c.len() - 1 ==> joints[#[trigger] c[m + 1] as int].parent_link
                    == joints[c[m] as int].child_link
            &&& joint_from_link(joints, chain_end(joints, link, fuel), 0) is None
        }),
    decreases fuel,
{
    lemma_joint_from_link(joints, link, 0);
    match joint_from_link(joints, link, 0) {
        None => {},
        Some(k) => {
            assert(fuel > 0);
            let next = joints[k].child_link;
            lemma_chain_is_connected(joints, next, (fuel - 1) as nat);
            let rest = chain_walk(joints, next, (fuel - 1) as nat)->0;
            let c = chain_walk(joints, link, fuel)->0;
            assert(c == seq![k as usize] + rest);
            assert(c[0] == k as usize);
            assert forall|m: int| 0 <= m < c.len() implies #[trigger] c[m] < joints.len() by {
                if m > 0 {
                    assert(c[m] == rest[m - 1]);
                }
            }
            assert forall|m: int| 0 <= m < c.len() - 1 implies joints[#[trigger] c[m + 1] as int].parent_link
                == joints[c[m] as int].child_link by {
                assert(c[m + 1] == rest[m]);
                if m > 0 {
                    let j = m - 1;
                    assert(c[m] == rest[j]);
                    assert(joints[rest[j + 1] as int].parent_link == joints[rest[j] as int].child_link);
                } else {
                    assert(rest.len() > 0);
                    assert(joints[rest[0] as int].parent_link == next);
                    assert((k as usize) as int == k);
                }
            }
            assert(chain_end(joints, link, fuel) == chain_end(joints, next, (fuel - 1) as nat));
        },
    }
}

pub open spec fn msg_not_robot() -> Seq<char> {
    "Root XML element must be <robot>"@
}

pub open spec fn msg_no_joints() -> Seq<char> {
    "URDF does not contain any valid joints"@
}

pub open spec fn msg_no_chain() -> Seq<char> {
    "Failed to assemble kinematic chain from URDF joints"@
}

pub open spec fn msg_endless_chain() -> Seq<char> {
    "URDF joint chain does not end: a link is reached twice"@
}

pub open spec fn msg_xml_prefix() -> Seq<char> {
    "XML parse error: "@
}

/// The robot a parsed document describes, or the reason it describes none.
/// Joints are read in document order; the chain is walked from the root link,
/// and a walk that takes more steps than there are joints never ends.
pub open spec fn urdf_from_document(doc: Seq<XmlNodeView>) -> Result<SpecUrdfRobot, Seq<char>> {
    let r = element_child_from(doc, 0, 0)->0;
    if doc[r as int].tag != "robot"@ {
        Err(msg_not_robot())
    } else {
        let joints = joints_of(doc, r);
        if joints.len() == 0 {
            Err(msg_no_joints())
        } else {
            match chain_walk(joints, root_link(joints), joints.len()) {
                None => Err(msg_endless_chain()),
                Some(chain) => if chain.len() == 0 {
                    Err(msg_no_chain())
                } else {
                    Ok(
                        SpecUrdfRobot {
                            name: attribute_or(doc, r, "name"@, "unnamed_robot"@),
                            joints,
                            chain,
                            colors: Seq::new(
                                chain.len(),
                                |k: int| chain_link_color(doc, r, joints[chain[k] as int].child_link, k),
                            ),
                        },
                    )
                },
            }
        }
    }
}


/// A parsed robot's chain is connected: it starts at the root link, each
/// joint leaves the link the previous one enters, the chain's colors match it
/// one for one, and no joint leaves the last link.
pub proof fn lemma_parsed_chain_is_connected(doc: Seq<XmlNodeView>)
    requires
        urdf_from_document(doc) is Ok,
        joints_of(doc, element_child_from(doc, 0, 0)->0).len() <= usize::MAX,
    ensures
        ({
            let robot = urdf_from_document(doc)->Ok_0;
            let (joints, chain) = (robot.joints, robot.chain);
            &&& chain.len() > 0
            &&& robot.colors.len() == chain.len()
            &&& forall|m: int| 0 <= m < chain.len() ==> #[trigger] chain[m] < joints.len()
            &&& joints[chain[0] as int].parent_link == root_link(joints)
            &&& forall|m: int|
                0 <= m < chain.len() - 1 ==> joints[#[trigger] chain[m + 1] as int].parent_link
                    == joints[chain[m] as int].child_link
        }),
{
    let r = element_child_from(doc, 0, 0)->0;
    let joints = joints_of(doc, r);
    lemma_chain_is_connected(joints, root_link(joints), joints.len());
}

/// Each joint of a parsed robot is read from its own `joint` element, in
/// document order: its name and type from the element's attributes, its parent
/// and child links from the `link` attributes of its first `parent` and
/// `child` children, its origin offsets from the `xyz` and `rpy` attributes of
/// its first `origin` child, its rotation axis from the `xyz` attribute of its
/// first `axis` child (never from the origin), and its limits from the `lower`
/// and `upper` attributes of its first `limit` child. A number triple is there
/// only when the attribute holds exactly three numbers.
pub proof fn lemma_parsed_joints_read_their_elements(doc: Seq<XmlNodeView>)
    requires
        urdf_from_document(doc) is Ok,
        doc.len() <= usize::MAX,
    ensures
        ({
            let robot = urdf_from_document(doc)->Ok_0;
            let r = element_child_from(doc, 0, 0)->0;
            let elements = element_children_named(doc, r, "joint"@, doc.len() as int);
            let triple = |n: Option<usize>, attr: Seq<char>|
                match n {
                    Some(c) => match attribute(doc, c, attr) {
                        Some(v) => if float_words(words(v)).len() == 3 {
                            Some(float_words(words(v)))
                        } else {
                            None
                        },
                        None => None,
                    },
                    None => None,
                };
            let link = |j: usize, tag: Seq<char>|
                match child_named(doc, j, tag) {
                    Some(c) => match attribute(doc, c, "link"@) {
                        Some(v) => v,
                        None => Seq::<char>::empty(),
                    },
                    None => Seq::<char>::empty(),
                };
            &&& robot.joints.len() == elements.len()
            &&& forall|k: int| 0 <= k < elements.len() ==> {
                let j = #[trigger] elements[k];
                let joint = robot.joints[k];
                let ty = attribute(doc, j, "type"@);
                &&& doc[j as int].tag == "joint"@ && doc[j as int].parent == Some(r)
                &&& joint.name == match attribute(doc, j, "name"@) {
                    Some(v) => v,
                    None => "joint"@,
                }
                &&& ty == Some("revolute"@) ==> joint.joint_type == JointType::Revolute
                &&& ty == Some("continuous"@) ==> joint.joint_type == JointType::Continuous
                &&& ty == Some("prismatic"@) ==> joint.joint_type == JointType::Prismatic
                &&& ty is None ==> joint.joint_type == JointType::Fixed
                &&& joint.parent_link == link(j, "parent"@)
                &&& joint.child_link == link(j, "child"@)
                &&& joint.origin_xyz == triple(child_named(doc, j, "origin"@), "xyz"@)
                &&& joint.origin_rpy == triple(child_named(doc, j, "origin"@), "rpy"@)
                &&& joint.axis == triple(child_named(doc, j, "axis"@), "xyz"@)
                &&& joint.limits == match child_named(doc, j, "limit"@) {
                    Some(l) => match (attribute(doc, l, "lower"@), attribute(doc, l, "upper"@)) {
                        (Some(a), Some(b)) => if is_float_literal(a) && is_float_literal(b) {
                            Some((a, b))
                        } else {
                            None
                        },
                        _ => None,
                    },
                    None => None,
                }
            }
        }),
{
    reveal_strlit("revolute");
    reveal_strlit("continuous");
    reveal_strlit("prismatic");
    reveal_strlit("fixed");
    assert("revolute"@.len() == 8 && "continuous"@.len() == 10 && "prismatic"@.len() == 9
        && "fixed"@.len() == 5);
    let r = element_child_from(doc, 0, 0)->0;
    let elements = element_children_named(doc, r, "joint"@, doc.len() as int);
    lemma_element_children_named_shape(doc, r, "joint"@, doc.len() as int);
    let robot = urdf_from_document(doc)->Ok_0;
    assert(robot.joints == joints_of(doc, r));
    assert forall|k: int| 0 <= k < elements.len() implies #[trigger] robot.joints[k] == joint_of(doc, elements[k]) by {}
}

/// The nodes that `element_children_named` lists are element children of `r`
/// with that tag.
pub proof fn lemma_element_children_named_shape(doc: Seq<XmlNodeView>, r: usize, tag: Seq<char>, upto: int)
    requires
        doc.len() <= usize::MAX,
    ensures
        forall|k: int| 0 <= k < element_children_named(doc, r, tag, upto).len() ==> {
            let i = #[trigger] element_children_named(doc, r, tag, upto)[k];
            &&& 0 <= i < doc.len()
            &&& doc[i as int].parent == Some(r)
            &&& doc[i as int].is_element
            &&& doc[i as int].tag == tag
        },
    decreases upto,
{
    if 0 < upto <= doc.len() {
        lemma_element_children_named_shape(doc, r, tag, upto - 1);
        let prev = element_children_named(doc, r, tag, upto - 1);
        let cur = element_children_named(doc, r, tag, upto);
        assert forall|k: int| 0 <= k < cur.len() implies {
            let i = #[trigger] cur[k];
            &&& 0 <= i < doc.len()
            &&& doc[i as int].parent == Some(r)
            &&& doc[i as int].is_element
            &&& doc[i as int].tag == tag
        } by {
            if k < prev.len() {
                assert(cur[k] == prev[k]);
            } else {
                assert(cur[k] == (upto - 1) as usize);
            }
        }
    }
}

/// Whether some joint enters link `name`.
pub open spec fn entered_by_some_joint(joints: Seq<SpecUrdfJoint>, name: Seq<char>) -> bool {
    exists|m: int| 0 <= m < joints.len() && #[trigger] joints[m].child_link == name
}

/// `free_parent_from` finds the first joint, from `from` on, whose parent link
/// no joint enters.
proof fn lemma_free_parent_from(joints: Seq<SpecUrdfJoint>, from: int)
    requires
        0 <= from,
    ensures
        match free_parent_from(joints, from) {
            Some(k) => from <= k < joints.len() && !entered_by_some_joint(joints, joints[k].parent_link)
                && forall|i: int| from <= i < k ==> entered_by_some_joint(joints, #[trigger] joints[i].parent_link),
            None => forall|i: int| from <= i < joints.len() ==> entered_by_some_joint(joints, #[trigger] joints[i].parent_link),
        },
    decreases joints.len() - from,
{
    if from < joints.len() {
        lemma_free_parent_from(joints, from + 1);
        if is_child_link(joints, joints[from].parent_link) {
            let m = choose|m: int| 0 <= m < joints.len() && #[trigger] joints[m].child_link == joints[from].parent_link;
            assert(joints[m].child_link == joints[from].parent_link);
        } else {
            assert(!entered_by_some_joint(joints, joints[from].parent_link)) by {
                if entered_by_some_joint(joints, joints[from].parent_link) {
                    let m = choose|m: int| 0 <= m < joints.len() && #[trigger] joints[m].child_link == joints[from].parent_link;
                    assert(joints[m].child_link == joints[from].parent_link);
                }
            }
        }
    }
}

/// The chain of a parsed robot starts from its root link: the parent link of
/// the first joint (in document order) whose parent link no joint enters, or,
/// when every parent link is entered by some joint, the first joint's parent
/// link. In particular, when some joint's parent link is entered by no joint,
/// the chain's first joint leaves a link that no joint enters, whatever the
/// order in which the joints are listed.
pub proof fn lemma_parsed_chain_starts_at_root(doc: Seq<XmlNodeView>)
    requires
        urdf_from_document(doc) is Ok,
        joints_of(doc, element_child_from(doc, 0, 0)->0).len() <= usize::MAX,
    ensures
        ({
            let robot = urdf_from_document(doc)->Ok_0;
            let joints = robot.joints;
            let start = joints[robot.chain[0] as int].parent_link;
            &&& forall|k: int|
                0 <= k < joints.len() && !entered_by_some_joint(joints, #[trigger] joints[k].parent_link)
                    && (forall|i: int| 0 <= i < k ==> entered_by_some_joint(joints, #[trigger] joints[i].parent_link))
                    ==> start == joints[k].parent_link
            &&& (forall|i: int| 0 <= i < joints.len() ==> entered_by_some_joint(joints, #[trigger] joints[i].parent_link))
                ==> start == joints[0].parent_link
            &&& (exists|k: int| 0 <= k < joints.len() && !entered_by_some_joint(joints, #[trigger] joints[k].parent_link))
                ==> forall|m: int| 0 <= m < joints.len() ==> #[trigger] joints[m].child_link != start
        }),
{
    let r = element_child_from(doc, 0, 0)->0;
    let joints = joints_of(doc, r);
    lemma_parsed_chain_is_connected(doc);
    lemma_free_parent_from(joints, 0);
    let robot = urdf_from_document(doc)->Ok_0;
    let start = joints[robot.chain[0] as int].parent_link;
    assert(start == root_link(joints));
    assert forall|k: int|
        0 <= k < joints.len() && !entered_by_some_joint(joints, #[trigger] joints[k].parent_link)
            && (forall|i: int| 0 <= i < k ==> entered_by_some_joint(joints, #[trigger] joints[i].parent_link))
            implies start == joints[k].parent_link by {
        match free_parent_from(joints, 0) {
            Some(f) => {
                if f < k {
                    assert(entered_by_some_joint(joints, joints[f].parent_link));
                } else if k < f {
                    assert(entered_by_some_joint(joints, joints[k].parent_link));
                }
            },
            None => {
                assert(entered_by_some_joint(joints, joints[k].parent_link));
            },
        }
    }
    if exists|k: int| 0 <= k < joints.len() && !entered_by_some_joint(joints, #[trigger] joints[k].parent_link) {
        let k = choose|k: int| 0 <= k < joints.len() && !entered_by_some_joint(joints, #[trigger] joints[k].parent_link);
        match free_parent_from(joints, 0) {
            Some(f) => {
                assert(!entered_by_some_joint(joints, start));
            },
            None => {
                assert(entered_by_some_joint(joints, joints[k].parent_link));
            },
        }
    }
}

pub open spec fn joints_view(joints: Seq<UrdfJoint>) -> Seq<SpecUrdfJoint> {
    joints.map_values(|j: UrdfJoint| j@)
}

pub open spec fn urdf_result_view(r: Result<UrdfRobot, String>) -> Result<SpecUrdfRobot, Seq<char>> {
    match r {
        Ok(robot) => Ok(robot@),
        Err(e) => Err(e@),
    }
}

fn attribute_or_at(nodes: &Vec<XmlNode>, n: usize, name: &str, default: &str) -> (r: Vec<char>)
    requires
        n < nodes@.len(),
    ensures
        r@ == attribute_or(nodes_view(nodes@), n, name@, default@),
{
    match attribute_at(nodes, n, name) {
        Some(v) => v,
        None => crate::text::chars_of(default),
    }
}

fn link_reference_at(nodes: &Vec<XmlNode>, j: usize, tag: &str) -> (r: Vec<char>)
    ensures
        r@ == link_reference(nodes_view(nodes@), j, tag@),
{
    proof {
        reveal_strlit("");
    }
    match child_named_at(nodes, j, tag) {
        Some(c) => attribute_or_at(nodes, c, "link", ""),
        None => Vec::new(),
    }
}

fn vec3_attribute_at(nodes: &Vec<XmlNode>, n: Option<usize>, attr: &str) -> (r: Option<Vec<Vec<char>>>)
    requires
        n matches Some(o) ==> o < nodes@.len(),
    ensures
        opt_list_view(r) == vec3_attribute(nodes_view(nodes@), n, attr@),
{
    match n {
        Some(o) => match attribute_at(nodes, o, attr) {
            Some(v) => number_list_of(v.as_slice(), 3),
            None => None,
        },
        None => None,
    }
}

fn joint_limits_at(nodes: &Vec<XmlNode>, j: usize) -> (r: Option<(Vec<char>, Vec<char>)>)
    ensures
        match r {
            Some((a, b)) => joint_limits(nodes_view(nodes@), j) == Some((a@, b@)),
            None => joint_limits(nodes_view(nodes@), j) is None,
        },
{
    match child_named_at(nodes, j, "limit") {
        Some(l) => match (attribute_at(nodes, l, "lower"), attribute_at(nodes, l, "upper")) {
            (Some(a), Some(b)) => if is_float_literal_chars(a.as_slice()) && is_float_literal_chars(
                b.as_slice(),
            ) {
                Some((a, b))
            } else {
                None
            },
            _ => None,
        },
        None => None,
    }
}

fn joint_at(nodes: &Vec<XmlNode>, j: usize) -> (r: UrdfJoint)
    requires
        j < nodes@.len(),
    ensures
        r@ == joint_of(nodes_view(nodes@), j),
{
    let origin = child_named_at(nodes, j, "origin");
    let type_attr = attribute_or_at(nodes, j, "type", "fixed");
    UrdfJoint {
        name: attribute_or_at(nodes, j, "name", "joint"),
        joint_type: urdf_joint_type(type_attr.as_slice()),
        parent_link: link_reference_at(nodes, j, "parent"),
        child_link: link_reference_at(nodes, j, "child"),
        origin_xyz: vec3_attribute_at(nodes, origin, "xyz"),
        origin_rpy: vec3_attribute_at(nodes, origin, "rpy"),
        axis: vec3_attribute_at(nodes, child_named_at(nodes, j, "axis"), "xyz"),
        limits: joint_limits_at(nodes, j),
    }
}

fn joints_at(nodes: &Vec<XmlNode>, r: usize) -> (js: Vec<UrdfJoint>)
    ensures
        joints_view(js@) == joints_of(nodes_view(nodes@), r),
{
    let ghost doc = nodes_view(nodes@);
    let mut js: Vec<UrdfJoint> = Vec::new();
    let mut i: usize = 0;
    while i < nodes.len()
        invariant
            doc == nodes_view(nodes@),
            i <= nodes@.len(),
            joints_view(js@) == element_children_named(doc, r, "joint"@, i as int).map_values(
                |j: usize| joint_of(doc, j),
            ),
        decreases nodes@.len() - i,
    {
        let ghost before = joints_view(js@);
        if nodes[i].parent == Some(r) && nodes[i].is_element && equals(nodes[i].tag.as_slice(), "joint") {
            js.push(joint_at(nodes, i));
            assert(joints_view(js@) =~= before.push(joint_of(doc, i)));
        }
        assert(element_children_named(doc, r, "joint"@, i + 1).map_values(|j: usize| joint_of(doc, j))
            =~= if doc[i as int].parent == Some(r) && doc[i as int].is_element && doc[i as int].tag
            == "joint"@ {
            element_children_named(doc, r, "joint"@, i as int).map_values(|j: usize| joint_of(doc, j)).push(
                joint_of(doc, i),
            )
        } else {
            element_children_named(doc, r, "joint"@, i as int).map_values(|j: usize| joint_of(doc, j))
        });
        i = i + 1;
    }
    js
}

fn is_child_link_of(joints: &Vec<UrdfJoint>, name: &[char]) -> (r: bool)
    ensures
        r == is_child_link(joints_view(joints@), name@),
{
    let ghost jv = joints_view(joints@);
    let mut k: usize = 0;
    while k < joints.len()
        invariant
            jv == joints_view(joints@),
            k <= joints@.len(),
            forall|m: int| 0 <= m < k ==> #[trigger] jv[m].child_link != name@,
        decreases joints@.len() - k,
    {
        if same_chars(joints[k].child_link.as_slice(), name) {
            assert(jv[k as int].child_link == name@);
            return true;
        }
        k = k + 1;
    }
    false
}

/// Position of the joint whose parent is the root link.
fn root_link_of(joints: &Vec<UrdfJoint>) -> (r: &Vec<char>)
    requires
        joints@.len() > 0,
    ensures
        r@ == root_link(joints_view(joints@)),
{
    let ghost jv = joints_view(joints@);
    let mut k: usize = 0;
    while k < joints.len()
        invariant
            jv == joints_view(joints@),
            joints@.len() > 0,
            k <= joints@.len(),
            free_parent_from(jv, 0) == free_parent_from(jv, k as int),
        decreases joints@.len() - k,
    {
        if !is_child_link_of(joints, joints[k].parent_link.as_slice()) {
            return &joints[k].parent_link;
        }
        k = k + 1;
    }
    &joints[0].parent_link
}

fn joint_from_link_of(joints: &Vec<UrdfJoint>, link: &[char]) -> (r: Option<usize>)
    ensures
        match r {
            Some(k) => joint_from_link(joints_view(joints@), link@, 0) == Some(k as int) && k
                < joints@.len(),
            None => joint_from_link(joints_view(joints@), link@, 0) is None,
        },
{
    let ghost jv = joints_view(joints@);
    let mut k: usize = 0;
    while k < joints.len()
        invariant
            jv == joints_view(joints@),
            k <= joints@.len(),
            joint_from_link(jv, link@, 0) == joint_from_link(jv, link@, k as int),
        decreases joints@.len() - k,
    {
        if same_chars(joints[k].parent_link.as_slice(), link) {
            return Some(k);
        }
        k = k + 1;
    }
    None
}

/// Walks the chain from `start`; `None` when it takes more than `joints.len()` steps.
fn walk_chain(joints: &Vec<UrdfJoint>, start: &[char]) -> (r: Option<Vec<usize>>)
    ensures
        match r {
            Some(c) => chain_walk(joints_view(joints@), start@, joints@.len()) == Some(c@),
            None => chain_walk(joints_view(joints@), start@, joints@.len()) is None,
        },
        r matches Some(c) ==> forall|m: int| 0 <= m < c@.len() ==> #[trigger] c@[m] < joints@.len(),
{
    let ghost jv = joints_view(joints@);
    let n = joints.len();
    let mut chain: Vec<usize> = Vec::new();
    let mut current: &[char] = start;
    let mut fuel: usize = n;
    loop
        invariant
            jv == joints_view(joints@),
            n == joints@.len(),
            fuel <= n,
            forall|m: int| 0 <= m < chain@.len() ==> #[trigger] chain@[m] < n,
            chain_walk(jv, start@, n as nat) == match chain_walk(jv, current@, fuel as nat) {
                Some(rest) => Some(chain@ + rest),
                None => None::<Seq<usize>>,
            },
        decreases fuel,
    {
        match joint_from_link_of(joints, current) {
            None => {
                assert(chain@ + Seq::<usize>::empty() =~= chain@);
                return Some(chain);
            },
            Some(k) => {
                if fuel == 0 {
                    return None;
                }
                let ghost before = chain@;
                chain.push(k);
                proof {
                    match chain_walk(jv, jv[k as int].child_link, (fuel - 1) as nat) {
                        Some(rest) => {
                            assert(before + (seq![k] + rest) =~= chain@ + rest);
                        },
                        None => {},
                    }
                }
                current = joints[k].child_link.as_slice();
                fuel = fuel - 1;
            },
        }
    }
}

fn last_link_named_at(nodes: &Vec<XmlNode>, r: usize, name: &[char]) -> (res: Option<usize>)
    ensures
        res == last_link_named(nodes_view(nodes@), r, name@, nodes@.len() as int),
        res matches Some(l) ==> l < nodes@.len(),
{
    let ghost doc = nodes_view(nodes@);
    let mut upto: usize = nodes.len();
    while upto > 0
        invariant
            doc == nodes_view(nodes@),
            upto <= nodes@.len(),
            last_link_named(doc, r, name@, nodes@.len() as int) == last_link_named(
                doc,
                r,
                name@,
                upto as int,
            ),
        decreases upto,
    {
        let i = upto - 1;
        if nodes[i].parent == Some(r) && nodes[i].is_element && equals(nodes[i].tag.as_slice(), "link") {
            let link_name = attribute_or_at(nodes, i, "name", "link");
            if same_chars(link_name.as_slice(), name) {
                return Some(i);
            }
        }
        upto = i;
    }
    None
}

fn link_rgba_at(nodes: &Vec<XmlNode>, l: usize) -> (r: Option<Vec<Vec<char>>>)
    ensures
        opt_list_view(r) == link_rgba(nodes_view(nodes@), l),
{
    match child_named_at(nodes, l, "visual") {
        Some(v) => match child_named_at(nodes, v, "material") {
            Some(m) => match child_named_at(nodes, m, "color") {
                Some(c) => match attribute_at(nodes, c, "rgba") {
                    Some(s) => number_list_of(s.as_slice(), 4),
                    None => None,
                },
                None => None,
            },
            None => None,
        },
        None => None,
    }
}

fn chain_link_color_at(nodes: &Vec<XmlNode>, r: usize, name: &[char], k: usize) -> (c: UrdfLinkColor)
    ensures
        c@ == chain_link_color(nodes_view(nodes@), r, name@, k as int),
{
    match last_link_named_at(nodes, r, name) {
        Some(l) => match link_rgba_at(nodes, l) {
            Some(rgba) => UrdfLinkColor::Rgba(rgba),
            None => UrdfLinkColor::LinkDefault,
        },
        None => UrdfLinkColor::Palette(k % 6),
    }
}

fn error_message(text: &str) -> (e: String)
    ensures
        e@ == text@,
{
    String::from_str(text)
}

/// Assembles the robot that a parsed document describes.
pub fn urdf_from_nodes(nodes: &Vec<XmlNode>) -> (res: Result<UrdfRobot, String>)
    requires
        xml_tree_well_formed(nodes_view(nodes@)),
    ensures
        urdf_result_view(res) == urdf_from_document(nodes_view(nodes@)),
        res matches Ok(robot) ==> robot@.well_formed(),
{
    let ghost doc = nodes_view(nodes@);
    let r = match element_child_at(nodes, 0) {
        Some(r) => r,
        None => {
            proof {
                let w = choose|i: int| 0 < i < doc.len() && #[trigger] doc[i].parent == Some(0usize)
                    && doc[i].is_element;
                lemma_element_child_found(doc, 0, 0, w);
            }
            return Err(error_message("Root XML element must be <robot>"));
        },
    };
    if !equals(nodes[r].tag.as_slice(), "robot") {
        return Err(error_message("Root XML element must be <robot>"));
    }
    let joints = joints_at(nodes, r);
    let ghost jv = joints_view(joints@);
    if joints.len() == 0 {
        return Err(error_message("URDF does not contain any valid joints"));
    }
    let root = root_link_of(&joints);
    let chain = match walk_chain(&joints, root.as_slice()) {
        Some(c) => c,
        None => {
            return Err(error_message("URDF joint chain does not end: a link is reached twice"));
        },
    };
    if chain.len() == 0 {
        return Err(error_message("Failed to assemble kinematic chain from URDF joints"));
    }
    let mut colors: Vec<UrdfLinkColor> = Vec::new();
    let mut k: usize = 0;
    while k < chain.len()
        invariant
            doc == nodes_view(nodes@),
            jv == joints_view(joints@),
            forall|m: int| 0 <= m < chain@.len() ==> #[trigger] chain@[m] < joints@.len(),
            k <= chain@.len(),
            colors@.len() == k,
            forall|m: int|
                0 <= m < k ==> #[trigger] colors@[m]@ == chain_link_color(
                    doc,
                    r,
                    jv[chain@[m] as int].child_link,
                    m,
                ),
        decreases chain@.len() - k,
    {
        let j = chain[k];
        colors.push(chain_link_color_at(nodes, r, joints[j].child_link.as_slice(), k));
        k = k + 1;
    }
    let name = attribute_or_at(nodes, r, "name", "unnamed_robot");
    let robot = UrdfRobot { name, joints, chain, colors };
    assert(robot@.colors =~= Seq::new(
        chain@.len(),
        |m: int| chain_link_color(doc, r, jv[chain@[m] as int].child_link, m),
    ));
    Ok(robot)
}

impl UrdfRobot {
    /// The types of the chain's joints, from the root link outwards.
    pub fn chain_joint_types(&self) -> (types: Vec<JointType>)
        requires
            self@.well_formed(),
        ensures
            types@ == self@.chain_types(),
    {
        let mut types: Vec<JointType> = Vec::new();
        let mut k: usize = 0;
        while k < self.chain.len()
            invariant
                self@.well_formed(),
                k <= self.chain@.len(),
                types@.len() == k,
                forall|m: int| 0 <= m < k ==> #[trigger] types@[m] == self@.chain_types()[m],
            decreases self.chain@.len() - k,
        {
            let j = self.chain[k];
            assert(self.chain@[k as int] < self.joints@.len());
            types.push(self.joints[j].joint_type);
            k = k + 1;
        }
        assert(types@ =~= self@.chain_types());
        types
    }

    /// Number of actuated degrees of freedom along the chain.
    pub fn dof(&self) -> (n: usize)
        requires
            self@.well_formed(),
        ensures
            n == dof_of(self@.chain_types()),
    {
        let types = self.chain_joint_types();
        count_actuated(types.as_slice())
    }
}

pub proof fn lemma_element_child_found(doc: Seq<XmlNodeView>, p: usize, from: int, w: int)
    requires
        0 <= from <= w < doc.len(),
        doc[w].parent == Some(p),
        doc[w].is_element,
    ensures
        element_child_from(doc, p, from) is Some,
    decreases w - from,
{
    if from < w {
        lemma_element_child_found(doc, p, from + 1, w);
    }
}

/// Parses a URDF XML text and reads the serial kinematic chain it describes:
/// XML errors are reported with an `XML parse error: ` prefix, otherwise the
/// result is what `urdf_from_document` gives for the parsed nodes.
pub fn parse_urdf(xml_content: &str) -> (res: Result<UrdfRobot, String>)
    ensures
        match xml_document(xml_content@) {
            Ok(doc) => urdf_result_view(res) == urdf_from_document(doc),
            Err(e) => urdf_result_view(res) == Err::<SpecUrdfRobot, Seq<char>>(msg_xml_prefix() + e),
        },
        res matches Ok(robot) ==> robot@.well_formed(),
{
    match parse_xml(xml_content) {
        Ok(nodes) => urdf_from_nodes(&nodes),
        Err(e) => {
            let mut message = String::from_str("XML parse error: ");
            message.append(e.as_str());
            Err(message)
        },
    }
}

} // verus!
