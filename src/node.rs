use vstd::prelude::*;

use crate::messages::Action;

verus! {

/// The axis along which a container lays out its children.
#[derive(Clone, Copy, Debug, PartialEq, Eq, Structural)]
pub enum Direction {
    Horizontal,
    Vertical,
}

/// Where children sit across a container.
#[derive(Clone, Copy, Debug, PartialEq, Eq, Structural)]
pub enum Alignment {
    Start,
    End,
    Centre,
}

/// The weight of a font.
#[derive(Clone, Copy, Debug, PartialEq, Eq, Structural)]
pub enum FontWeight {
    Normal,
    Thin,
    ExtraLight,
    Light,
    Medium,
    Bold,
    ExtraBold,
    Black,
}

/// A position along an axis.
#[derive(Clone, Copy, Debug, PartialEq, Eq, Structural)]
pub enum Position {
    Start,
    End,
    Centre,
}

impl Default for Position {
    fn default() -> (r: Self)
        ensures
            r == Position::Start,
    {
        Position::Start
    }
}

/// A container of child nodes.
#[derive(Debug)]
pub struct ContainerProps {
    pub direction: Direction,
    pub children: Vec<Node>,
    pub classes: Vec<String>,
}

/// A run of text.
#[derive(Debug)]
pub struct TextProps {
    pub text: String,
    pub classes: Vec<String>,
}

/// A button that fires an action when clicked.
#[derive(Debug)]
pub struct ButtonProps {
    pub label: String,
    pub on_click: Action,
    pub classes: Vec<String>,
}

/// A checkbox that fires an action when toggled.
#[derive(Debug)]
pub struct CheckboxProps {
    pub id: String,
    pub label: String,
    pub checked: bool,
    pub on_change: Action,
    pub classes: Vec<String>,
}

/// A labelled text input.
#[derive(Debug)]
pub struct InputProps {
    pub id: String,
    pub label: String,
    pub password: bool,
    pub placeholder: Option<String>,
    pub label_classes: Vec<String>,
    pub input_classes: Vec<String>,
}

/// A node of a document's tree.
#[derive(Debug)]
pub enum Node {
    Empty,
    Container(ContainerProps),
    Text(TextProps),
    Button(ButtonProps),
    Checkbox(CheckboxProps),
    Input(InputProps),
}

impl Node {
    /// This node on the heap.
    pub fn boxed(self) -> (r: Box<Node>)
        ensures
            *r == self,
    {
        Box::new(self)
    }
}

} // verus!
