//! Type system for block ports and compatibility checking.

use vstd::prelude::*;

verus! {

/// Data types supported by block ports.
#[derive(Debug, PartialEq, Eq, Hash)]
pub enum DataType {
    /// Any type (generic)
    Any,
    /// Integer number
    Integer,
    /// Floating point number
    Float,
    /// String/text
    String,
    /// Boolean value
    Boolean,
    /// Array/list of values
    Array(Box<DataType>),
    /// Object/map/dictionary
    Object,
    /// Function/callable
    Function,
    /// Control flow (execution connection)
    ControlFlow,
    /// Custom named type
    Custom(String),
    /// Void/no return
    Void,
}

/// Mathematical model of a [`DataType`]: custom names are character sequences.
pub enum TypeModel {
    Any,
    Integer,
    Float,
    Text,
    Boolean,
    Array(Box<TypeModel>),
    Object,
    Function,
    ControlFlow,
    Custom(Seq<char>),
    Void,
}

pub open spec fn type_model(t: DataType) -> TypeModel
    decreases t,
{
    match t {
        DataType::Any => TypeModel::Any,
        DataType::Integer => TypeModel::Integer,
        DataType::Float => TypeModel::Float,
        DataType::String => TypeModel::Text,
        DataType::Boolean => TypeModel::Boolean,
        DataType::Array(inner) => TypeModel::Array(Box::new(type_model(*inner))),
        DataType::Object => TypeModel::Object,
        DataType::Function => TypeModel::Function,
        DataType::ControlFlow => TypeModel::ControlFlow,
        DataType::Custom(name) => TypeModel::Custom(name@),
        DataType::Void => TypeModel::Void,
    }
}

impl View for DataType {
    type V = TypeModel;

    open spec fn view(&self) -> TypeModel {
        type_model(*self)
    }
}

/// Compatibility of two port types: `Any` matches everything, equal types
/// match, integers and floats convert into each other, and arrays match when
/// their element types do.
pub open spec fn compatible(a: TypeModel, b: TypeModel) -> bool
    decreases a,
{
    if a is Any || b is Any {
        true
    } else if a == b {
        true
    } else {
        match a {
            TypeModel::Integer => b is Float,
            TypeModel::Float => b is Integer,
            TypeModel::Array(x) => match b {
                TypeModel::Array(y) => compatible(*x, *y),
                _ => false,
            },
            _ => false,
        }
    }
}

impl Clone for DataType {
    fn clone(&self) -> (r: Self)
        ensures
            r@ == self@,
        decreases self,
    {
        match self {
            DataType::Any => DataType::Any,
            DataType::Integer => DataType::Integer,
            DataType::Float => DataType::Float,
            DataType::String => DataType::String,
            DataType::Boolean => DataType::Boolean,
            DataType::Array(inner) => {
                let c = (**inner).clone();
                DataType::Array(Box::new(c))
            },
            DataType::Object => DataType::Object,
            DataType::Function => DataType::Function,
            DataType::ControlFlow => DataType::ControlFlow,
            DataType::Custom(name) => DataType::Custom(name.clone()),
            DataType::Void => DataType::Void,
        }
    }
}

impl DataType {
    /// Structural equality of two types.
    pub fn same_as(&self, other: &DataType) -> (r: bool)
        ensures
            r == (self@ == other@),
        decreases self,
    {
        match (self, other) {
            (DataType::Any, DataType::Any) => true,
            (DataType::Integer, DataType::Integer) => true,
            (DataType::Float, DataType::Float) => true,
            (DataType::String, DataType::String) => true,
            (DataType::Boolean, DataType::Boolean) => true,
            (DataType::Array(a), DataType::Array(b)) => (**a).same_as(&**b),
            (DataType::Object, DataType::Object) => true,
            (DataType::Function, DataType::Function) => true,
            (DataType::ControlFlow, DataType::ControlFlow) => true,
            (DataType::Custom(a), DataType::Custom(b)) => *a == *b,
            (DataType::Void, DataType::Void) => true,
            _ => false,
        }
    }

    /// Check if this type is compatible with another type.
    pub fn is_compatible_with(&self, other: &DataType) -> (r: bool)
        ensures
            r == compatible(self@, other@),
        decreases self,
    {
        match (self, other) {
            (DataType::Any, _) | (_, DataType::Any) => true,
            _ => {
                if self.same_as(other) {
                    true
                } else {
                    match (self, other) {
                        (DataType::Integer, DataType::Float) | (DataType::Float, DataType::Integer) => true,
                        (DataType::Array(a), DataType::Array(b)) => (**a).is_compatible_with(&**b),
                        (DataType::ControlFlow, DataType::ControlFlow) => true,
                        _ => false,
                    }
                }
            },
        }
    }
}


/// Display name of a type model.
pub open spec fn display_text(t: TypeModel) -> Seq<char>
    decreases t,
{
    match t {
        TypeModel::Any => "any"@,
        TypeModel::Integer => "int"@,
        TypeModel::Float => "float"@,
        TypeModel::Text => "string"@,
        TypeModel::Boolean => "bool"@,
        TypeModel::Array(inner) => display_text(*inner) + "[]"@,
        TypeModel::Object => "object"@,
        TypeModel::Function => "function"@,
        TypeModel::ControlFlow => "exec"@,
        TypeModel::Custom(name) => name,
        TypeModel::Void => "void"@,
    }
}

/// Colour key of a type model, used by the renderer.
pub open spec fn type_color_key(t: TypeModel) -> Seq<char> {
    match t {
        TypeModel::Any => "any"@,
        TypeModel::Integer => "int"@,
        TypeModel::Float => "float"@,
        TypeModel::Text => "string"@,
        TypeModel::Boolean => "bool"@,
        TypeModel::Array(_) => "array"@,
        TypeModel::Object => "object"@,
        TypeModel::Function => "function"@,
        TypeModel::ControlFlow => "control"@,
        TypeModel::Custom(_) => "custom"@,
        TypeModel::Void => "void"@,
    }
}

impl DataType {
    /// Get display name for the type.
    pub fn display_name(&self) -> (r: String)
        ensures
            r@ == display_text(self@),
        decreases self,
    {
        match self {
            DataType::Any => String::from_str("any"),
            DataType::Integer => String::from_str("int"),
            DataType::Float => String::from_str("float"),
            DataType::String => String::from_str("string"),
            DataType::Boolean => String::from_str("bool"),
            DataType::Array(inner) => {
                let mut s = (**inner).display_name();
                s.append("[]");
                s
            },
            DataType::Object => String::from_str("object"),
            DataType::Function => String::from_str("function"),
            DataType::ControlFlow => String::from_str("exec"),
            DataType::Custom(name) => name.clone(),
            DataType::Void => String::from_str("void"),
        }
    }

    /// Get color key for visual representation.
    pub fn color_key(&self) -> (r: &'static str)
        ensures
            r@ == type_color_key(self@),
    {
        match self {
            DataType::Any => "any",
            DataType::Integer => "int",
            DataType::Float => "float",
            DataType::String => "string",
            DataType::Boolean => "bool",
            DataType::Array(_) => "array",
            DataType::Object => "object",
            DataType::Function => "function",
            DataType::ControlFlow => "control",
            DataType::Custom(_) => "custom",
            DataType::Void => "void",
        }
    }
}

/// Port direction.
#[derive(Clone, Copy, Debug, PartialEq, Eq, Structural)]
pub enum PortDirection {
    /// Input port (receives data)
    Input,
    /// Output port (provides data)
    Output,
    /// Execution input (control flow)
    ExecInput,
    /// Execution output (control flow)
    ExecOutput,
}

impl PortDirection {
    pub open spec fn receives(self) -> bool {
        self is Input || self is ExecInput
    }

    pub open spec fn provides(self) -> bool {
        self is Output || self is ExecOutput
    }

    pub open spec fn controls(self) -> bool {
        self is ExecInput || self is ExecOutput
    }

    pub open spec fn reversed(self) -> PortDirection {
        match self {
            PortDirection::Input => PortDirection::Output,
            PortDirection::Output => PortDirection::Input,
            PortDirection::ExecInput => PortDirection::ExecOutput,
            PortDirection::ExecOutput => PortDirection::ExecInput,
        }
    }

    pub fn is_input(&self) -> (r: bool)
        ensures
            r == self.receives(),
    {
        matches!(self, PortDirection::Input | PortDirection::ExecInput)
    }

    pub fn is_output(&self) -> (r: bool)
        ensures
            r == self.provides(),
    {
        matches!(self, PortDirection::Output | PortDirection::ExecOutput)
    }

    pub fn is_control(&self) -> (r: bool)
        ensures
            r == self.controls(),
    {
        matches!(self, PortDirection::ExecInput | PortDirection::ExecOutput)
    }

    pub fn opposite(&self) -> (r: PortDirection)
        ensures
            r == self.reversed(),
    {
        match self {
            PortDirection::Input => PortDirection::Output,
            PortDirection::Output => PortDirection::Input,
            PortDirection::ExecInput => PortDirection::ExecOutput,
            PortDirection::ExecOutput => PortDirection::ExecInput,
        }
    }
}

/// View of an optional string as an optional character sequence.
pub open spec fn opt_text(o: Option<String>) -> Option<Seq<char>> {
    match o {
        Some(s) => Some(s@),
        None => None,
    }
}

/// Mathematical model of a [`PortSpec`].
pub struct PortModel {
    pub id: Seq<char>,
    pub name: Seq<char>,
    pub direction: PortDirection,
    pub data_type: TypeModel,
    pub required: bool,
    pub default_value: Option<Seq<char>>,
    pub description: Seq<char>,
}

/// Port specification.
#[derive(Debug)]
pub struct PortSpec {
    /// Unique port identifier within the block
    pub id: String,
    /// Display name
    pub name: String,
    /// Port direction
    pub direction: PortDirection,
    /// Data type
    pub data_type: DataType,
    /// Whether the port is required
    pub required: bool,
    /// Default value (for optional inputs)
    pub default_value: Option<String>,
    /// Description/tooltip
    pub description: String,
}

impl View for PortSpec {
    type V = PortModel;

    open spec fn view(&self) -> PortModel {
        PortModel {
            id: self.id@,
            name: self.name@,
            direction: self.direction,
            data_type: self.data_type@,
            required: self.required,
            default_value: opt_text(self.default_value),
            description: self.description@,
        }
    }
}

/// A fresh port: required, without default value or description.
pub open spec fn fresh_port(id: Seq<char>, name: Seq<char>, direction: PortDirection, data_type: TypeModel) -> PortModel {
    PortModel {
        id,
        name,
        direction,
        data_type,
        required: true,
        default_value: None,
        description: Seq::empty(),
    }
}

/// Whether a port of specification `a` may be wired to one of specification
/// `b`: opposite directions, both control or both data, compatible types.
pub open spec fn ports_connectable(a: PortModel, b: PortModel) -> bool {
    &&& a.direction.receives() != b.direction.receives()
    &&& a.direction.controls() == b.direction.controls()
    &&& compatible(a.data_type, b.data_type)
}

pub fn clone_opt_string(o: &Option<String>) -> (r: Option<String>)
    ensures
        opt_text(r) == opt_text(*o),
{
    match o {
        Some(s) => Some(s.clone()),
        None => None,
    }
}

impl Clone for PortSpec {
    fn clone(&self) -> (r: Self)
        ensures
            r@ == self@,
    {
        PortSpec {
            id: self.id.clone(),
            name: self.name.clone(),
            direction: self.direction,
            data_type: self.data_type.clone(),
            required: self.required,
            default_value: clone_opt_string(&self.default_value),
            description: self.description.clone(),
        }
    }
}

impl PortSpec {
    pub fn new(id: &str, name: &str, direction: PortDirection, data_type: DataType) -> (r: Self)
        ensures
            r@ == (PortModel {
                id: id@,
                name: name@,
                direction,
                data_type: data_type@,
                required: true,
                default_value: None,
                description: Seq::empty(),
            }),
    {
        PortSpec {
            id: String::from_str(id),
            name: String::from_str(name),
            direction,
            data_type,
            required: true,
            default_value: None,
            description: String::new(),
        }
    }

    pub fn input(id: &str, name: &str, data_type: DataType) -> (r: Self)
        ensures
            r@ == (PortModel {
                id: id@,
                name: name@,
                direction: PortDirection::Input,
                data_type: data_type@,
                required: true,
                default_value: None,
                description: Seq::empty(),
            }),
    {
        Self::new(id, name, PortDirection::Input, data_type)
    }

    pub fn output(id: &str, name: &str, data_type: DataType) -> (r: Self)
        ensures
            r@ == (PortModel {
                id: id@,
                name: name@,
                direction: PortDirection::Output,
                data_type: data_type@,
                required: true,
                default_value: None,
                description: Seq::empty(),
            }),
    {
        Self::new(id, name, PortDirection::Output, data_type)
    }

    pub fn exec_input(id: &str, name: &str) -> (r: Self)
        ensures
            r@ == (PortModel {
                id: id@,
                name: name@,
                direction: PortDirection::ExecInput,
                data_type: TypeModel::ControlFlow,
                required: true,
                default_value: None,
                description: Seq::empty(),
            }),
    {
        Self::new(id, name, PortDirection::ExecInput, DataType::ControlFlow)
    }

    pub fn exec_output(id: &str, name: &str) -> (r: Self)
        ensures
            r@ == (PortModel {
                id: id@,
                name: name@,
                direction: PortDirection::ExecOutput,
                data_type: TypeModel::ControlFlow,
                required: true,
                default_value: None,
                description: Seq::empty(),
            }),
    {
        Self::new(id, name, PortDirection::ExecOutput, DataType::ControlFlow)
    }

    pub fn required(self, required: bool) -> (r: Self)
        ensures
            r@ == (PortModel { required, ..self@ }),
    {
        let mut s = self;
        s.required = required;
        s
    }

    pub fn default(self, value: &str) -> (r: Self)
        ensures
            r@ == (PortModel { default_value: Some(value@), required: false, ..self@ }),
    {
        let mut s = self;
        s.default_value = Some(String::from_str(value));
        s.required = false;
        s
    }

    pub fn description(self, desc: &str) -> (r: Self)
        ensures
            r@ == (PortModel { description: desc@, ..self@ }),
    {
        let mut s = self;
        s.description = String::from_str(desc);
        s
    }

    /// Check if this port can connect to another port.
    pub fn can_connect_to(&self, other: &PortSpec) -> (r: bool)
        ensures
            r == ports_connectable(self@, other@),
    {
        if self.direction.is_input() == other.direction.is_input() {
            return false;
        }
        if self.direction.is_control() != other.direction.is_control() {
            return false;
        }
        self.data_type.is_compatible_with(&other.data_type)
    }
}

/// Port identifier (block_id, port_id).
#[derive(Debug, PartialEq, Eq, Hash)]
pub struct PortId {
    pub block_id: String,
    pub port_id: String,
}

impl View for PortId {
    type V = (Seq<char>, Seq<char>);

    open spec fn view(&self) -> (Seq<char>, Seq<char>) {
        (self.block_id@, self.port_id@)
    }
}

impl Clone for PortId {
    fn clone(&self) -> (r: Self)
        ensures
            r@ == self@,
    {
        PortId { block_id: self.block_id.clone(), port_id: self.port_id.clone() }
    }
}

impl PortId {
    pub fn new(block_id: &str, port_id: &str) -> (r: Self)
        ensures
            r@ == (block_id@, port_id@),
    {
        PortId { block_id: String::from_str(block_id), port_id: String::from_str(port_id) }
    }
}

/// Connection validation result.
#[derive(Debug)]
pub enum ConnectionValidation {
    /// Connection is valid
    Valid,
    /// Ports are incompatible
    IncompatibleTypes { source_type: DataType, target_type: DataType },
    /// Same direction ports
    SameDirection,
    /// Control/data mismatch
    ControlDataMismatch,
    /// Would create a cycle
    WouldCreateCycle,
    /// Target port already connected (for single-connection inputs)
    TargetAlreadyConnected,
    /// Self-connection not allowed
    SelfConnection,
}

/// Message shown to the user for a rejected connection.
pub open spec fn validation_message(v: ConnectionValidation) -> Seq<char> {
    match v {
        ConnectionValidation::Valid => Seq::empty(),
        ConnectionValidation::IncompatibleTypes { source_type, target_type } =>
            "Type mismatch: "@ + display_text(source_type@) + " is not compatible with "@
                + display_text(target_type@),
        ConnectionValidation::SameDirection => "Cannot connect ports with the same direction"@,
        ConnectionValidation::ControlDataMismatch => "Cannot connect control flow to data ports"@,
        ConnectionValidation::WouldCreateCycle => "Connection would create a cycle"@,
        ConnectionValidation::TargetAlreadyConnected => "Target port is already connected"@,
        ConnectionValidation::SelfConnection => "Cannot connect a block to itself"@,
    }
}

impl Clone for ConnectionValidation {
    fn clone(&self) -> (r: Self)
        ensures
            validation_message(r) == validation_message(*self),
            (r is Valid) == (self is Valid),
            (r is IncompatibleTypes) == (self is IncompatibleTypes),
            (r is SameDirection) == (self is SameDirection),
            (r is ControlDataMismatch) == (self is ControlDataMismatch),
            (r is WouldCreateCycle) == (self is WouldCreateCycle),
            (r is TargetAlreadyConnected) == (self is TargetAlreadyConnected),
            (r is SelfConnection) == (self is SelfConnection),
    {
        match self {
            ConnectionValidation::Valid => ConnectionValidation::Valid,
            ConnectionValidation::IncompatibleTypes { source_type, target_type } =>
                ConnectionValidation::IncompatibleTypes {
                    source_type: source_type.clone(),
                    target_type: target_type.clone(),
                },
            ConnectionValidation::SameDirection => ConnectionValidation::SameDirection,
            ConnectionValidation::ControlDataMismatch => ConnectionValidation::ControlDataMismatch,
            ConnectionValidation::WouldCreateCycle => ConnectionValidation::WouldCreateCycle,
            ConnectionValidation::TargetAlreadyConnected => ConnectionValidation::TargetAlreadyConnected,
            ConnectionValidation::SelfConnection => ConnectionValidation::SelfConnection,
        }
    }
}

impl ConnectionValidation {
    pub fn is_valid(&self) -> (r: bool)
        ensures
            r == (self is Valid),
    {
        matches!(self, ConnectionValidation::Valid)
    }

    pub fn error_message(&self) -> (r: Option<String>)
        ensures
            self is Valid ==> r is None,
            !(self is Valid) ==> r is Some && r.unwrap()@ == validation_message(*self),
    {
        match self {
            ConnectionValidation::Valid => None,
            ConnectionValidation::IncompatibleTypes { source_type, target_type } => {
                let mut m = String::from_str("Type mismatch: ");
                let s = source_type.display_name();
                m.append(s.as_str());
                m.append(" is not compatible with ");
                let t = target_type.display_name();
                m.append(t.as_str());
                Some(m)
            },
            ConnectionValidation::SameDirection => Some(
                String::from_str("Cannot connect ports with the same direction"),
            ),
            ConnectionValidation::ControlDataMismatch => Some(
                String::from_str("Cannot connect control flow to data ports"),
            ),
            ConnectionValidation::WouldCreateCycle => Some(
                String::from_str("Connection would create a cycle"),
            ),
            ConnectionValidation::TargetAlreadyConnected => Some(
                String::from_str("Target port is already connected"),
            ),
            ConnectionValidation::SelfConnection => Some(
                String::from_str("Cannot connect a block to itself"),
            ),
        }
    }
}

/// Compatibility is symmetric: `a` is compatible with `b` exactly when
/// `b` is compatible with `a`.
pub proof fn lemma_compatible_symmetric(a: TypeModel, b: TypeModel)
    ensures
        compatible(a, b) == compatible(b, a),
    decreases a,
{
    if let TypeModel::Array(x) = a {
        if let TypeModel::Array(y) = b {
            lemma_compatible_symmetric(*x, *y);
        }
    }
}

/// Every type is compatible with itself.
pub proof fn lemma_compatible_reflexive(a: TypeModel)
    ensures
        compatible(a, a),
{
}

/// `Any` is compatible with every type, on either side.
pub proof fn lemma_any_compatible(a: TypeModel)
    ensures
        compatible(TypeModel::Any, a),
        compatible(a, TypeModel::Any),
{
}

/// Two types that are neither `Any` nor arrays are compatible exactly when
/// they are the same type or one is `Integer` and the other `Float`: any
/// other pair of distinct types (a float and a string, a boolean and an
/// object, ...) is incompatible. An array is compatible with a type that is
/// neither `Any` nor an array in no case, and two arrays are compatible
/// exactly when their element types are.
pub proof fn lemma_compatible_only_as_documented(a: TypeModel, b: TypeModel)
    ensures
        !(a is Any) && !(b is Any) && !(a is Array) && !(b is Array) ==> (compatible(a, b) <==> (a == b || (
        a is Integer && b is Float) || (a is Float && b is Integer))),
        !(b is Any) && !(b is Array) && a is Array ==> !compatible(a, b) && !compatible(b, a),
        a matches TypeModel::Array(x) ==> b matches TypeModel::Array(y) ==> (compatible(a, b) <==> compatible(*x, *y)),
{
}

/// The opposite of the opposite direction is the direction itself, and
/// the opposite of a direction receives exactly when it provides.
pub proof fn lemma_opposite_involutive(d: PortDirection)
    ensures
        d.reversed().reversed() == d,
        d.reversed().receives() == d.provides(),
        d.reversed().controls() == d.controls(),
{
}

/// Whether two ports can be wired does not depend on which is asked.
pub proof fn lemma_connectable_symmetric(a: PortModel, b: PortModel)
    ensures
        ports_connectable(a, b) == ports_connectable(b, a),
{
    lemma_compatible_symmetric(a.data_type, b.data_type);
}

} // verus!
