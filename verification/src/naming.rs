use vstd::prelude::*;

verus! {

/// `String::push` of std appends the character to the end of the string.
pub assume_specification[ std::string::String::push ](s: &mut std::string::String, c: char)
    ensures
        final(s)@ == old(s)@.push(c),
;

/// `c` with an ASCII lower-case letter raised; any other character as it is.
pub open spec fn upper(c: char) -> char {
    if 'a' <= c && c <= 'z' {
        ((c as u8) - 32) as char
    } else {
        c
    }
}

/// `c` with an ASCII upper-case letter lowered; any other character as it is.
pub open spec fn lower(c: char) -> char {
    if 'A' <= c && c <= 'Z' {
        ((c as u8) + 32) as char
    } else {
        c
    }
}

/// What the character at `i` of an identifier adds to its mixed-case form:
/// nothing for an underscore, the raised character behind an underscore or at
/// the start, the character itself elsewhere.
pub open spec fn pascal_piece(field: Seq<char>, i: int) -> Seq<char> {
    if field[i] == '_' {
        seq![]
    } else if i == 0 || field[i - 1] == '_' {
        seq![upper(field[i])]
    } else {
        seq![field[i]]
    }
}

/// The pieces of the first `n` characters of an identifier, in order.
pub open spec fn pascal_prefix(field: Seq<char>, n: nat) -> Seq<char>
    decreases n,
{
    if n == 0 {
        seq![]
    } else {
        pascal_prefix(field, (n - 1) as nat) + pascal_piece(field, n - 1)
    }
}

/// `text` with its first character lowered.
pub open spec fn lower_first(text: Seq<char>) -> Seq<char> {
    if text.len() == 0 {
        text
    } else {
        text.update(0, lower(text[0]))
    }
}

/// The mixed-case form of an identifier written in lower case with
/// underscores: the words joined without a separator, each but the first
/// beginning with a capital.
pub open spec fn camel_case_spec(field: Seq<char>) -> Seq<char> {
    lower_first(pascal_prefix(field, field.len()))
}

/// The hyphenated form of an identifier written in lower case with
/// underscores: each underscore replaced by a hyphen.
pub open spec fn kebab_case_spec(field: Seq<char>) -> Seq<char> {
    Seq::new(field.len(), |i: int| if field[i] == '_' { '-' } else { field[i] })
}

fn to_upper(c: char) -> (raised: char)
    ensures
        raised == upper(c),
{
    if 'a' <= c && c <= 'z' {
        ((c as u8) - 32) as char
    } else {
        c
    }
}

fn to_lower(c: char) -> (lowered: char)
    ensures
        lowered == lower(c),
{
    if 'A' <= c && c <= 'Z' {
        ((c as u8) + 32) as char
    } else {
        c
    }
}

/// Renders an identifier in mixed case.
pub fn camel_case(field: &str) -> (key: String)
    ensures
        key@ == camel_case_spec(field@),
{
    let mut key = String::new();
    let mut word_start = true;
    let mut empty = true;
    for c in it: field.chars()
        invariant
            it.seq() == field@,
            key@ == lower_first(pascal_prefix(field@, it.index() as nat)),
            empty == (pascal_prefix(field@, it.index() as nat).len() == 0),
            word_start == (it.index() == 0 || field@[it.index() - 1] == '_'),
    {
        let ghost before = pascal_prefix(field@, it.index() as nat);
        if c == '_' {
            word_start = true;
            assert(before + pascal_piece(field@, it.index() as int) =~= before);
        } else {
            let piece = if word_start { to_upper(c) } else { c };
            assert(before + pascal_piece(field@, it.index() as int) =~= before.push(piece));
            if empty {
                key.push(to_lower(piece));
                assert(key@ =~= lower_first(before.push(piece)));
            } else {
                key.push(piece);
                assert(key@ =~= lower_first(before.push(piece)));
            }
            word_start = false;
            empty = false;
        }
    }
    key
}

/// Renders an identifier with hyphens.
pub fn kebab_case(field: &str) -> (key: String)
    ensures
        key@ == kebab_case_spec(field@),
{
    let mut key = String::new();
    for c in it: field.chars()
        invariant
            it.seq() == field@,
            key@ == kebab_case_spec(field@.take(it.index())),
    {
        key.push(if c == '_' { '-' } else { c });
    }
    key
}

/// The fields of a layer record, in the order of their declaration.
#[derive(Clone, Copy, Debug, PartialEq, Eq, Structural)]
pub enum LayerField {
    Id,
    Layout,
    Maxzoom,
    Minzoom,
    Paint,
    RenderingMode,
    Source,
    SourceLayer,
    Type,
}

impl LayerField {
    /// The field's identifier.
    pub open spec fn identifier_spec(self) -> Seq<char> {
        match self {
            LayerField::Id => "id"@,
            LayerField::Layout => "layout"@,
            LayerField::Maxzoom => "maxzoom"@,
            LayerField::Minzoom => "minzoom"@,
            LayerField::Paint => "paint"@,
            LayerField::RenderingMode => "rendering_mode"@,
            LayerField::Source => "source"@,
            LayerField::SourceLayer => "source_layer"@,
            LayerField::Type => "type"@,
        }
    }

    /// The key that a field has by the table of exceptions, if it is there.
    pub open spec fn override_spec(self) -> Option<Seq<char>> {
        match self {
            LayerField::SourceLayer => Some("source-layer"@),
            _ => None,
        }
    }

    /// The field's key on the wire: the one of the table of exceptions, or
    /// else the identifier in mixed case.
    pub open spec fn key_spec(self) -> Seq<char> {
        match self.override_spec() {
            Some(key) => key,
            None => camel_case_spec(self.identifier_spec()),
        }
    }

    /// The field's identifier.
    pub fn identifier(self) -> (name: &'static str)
        ensures
            name@ == self.identifier_spec(),
    {
        match self {
            LayerField::Id => "id",
            LayerField::Layout => "layout",
            LayerField::Maxzoom => "maxzoom",
            LayerField::Minzoom => "minzoom",
            LayerField::Paint => "paint",
            LayerField::RenderingMode => "rendering_mode",
            LayerField::Source => "source",
            LayerField::SourceLayer => "source_layer",
            LayerField::Type => "type",
        }
    }

    /// The key that a field has by the table of exceptions, if it is there.
    pub fn key_override(self) -> (key: Option<&'static str>)
        ensures
            match key {
                Some(text) => self.override_spec() == Some(text@),
                None => self.override_spec() is None,
            },
    {
        match self {
            LayerField::SourceLayer => Some("source-layer"),
            _ => None,
        }
    }

    /// The field's key on the wire.
    pub fn key(self) -> (key: String)
        ensures
            key@ == self.key_spec(),
    {
        match self.key_override() {
            Some(text) => text.to_string(),
            None => camel_case(self.identifier()),
        }
    }
}

#[verifier::rlimit(50)]
proof fn lemma_plain_key(field: LayerField)
    requires
        field != LayerField::RenderingMode,
        field != LayerField::SourceLayer,
    ensures
        field.key_spec() == field.identifier_spec(),
{
    reveal_strlit("id");
    reveal_strlit("layout");
    reveal_strlit("maxzoom");
    reveal_strlit("minzoom");
    reveal_strlit("paint");
    reveal_strlit("source");
    reveal_strlit("type");
    reveal_with_fuel(pascal_prefix, 8);
    assert(field.key_spec() =~= field.identifier_spec());
}

#[verifier::rlimit(50)]
proof fn lemma_rendering_mode_key()
    ensures
        LayerField::RenderingMode.key_spec() == "renderingMode"@,
{
    reveal_strlit("rendering_mode");
    reveal_strlit("renderingMode");
    reveal_with_fuel(pascal_prefix, 15);
    assert(LayerField::RenderingMode.key_spec() =~= "renderingMode"@);
}

/// The keys of a layer record, letter by letter.
pub proof fn lemma_layer_key_texts()
    ensures
        LayerField::Id.key_spec() == "id"@,
        LayerField::Layout.key_spec() == "layout"@,
        LayerField::Maxzoom.key_spec() == "maxzoom"@,
        LayerField::Minzoom.key_spec() == "minzoom"@,
        LayerField::Paint.key_spec() == "paint"@,
        LayerField::RenderingMode.key_spec() == "renderingMode"@,
        LayerField::Source.key_spec() == "source"@,
        LayerField::SourceLayer.key_spec() == "source-layer"@,
        LayerField::Type.key_spec() == "type"@,
{
    lemma_plain_key(LayerField::Id);
    lemma_plain_key(LayerField::Layout);
    lemma_plain_key(LayerField::Maxzoom);
    lemma_plain_key(LayerField::Minzoom);
    lemma_plain_key(LayerField::Paint);
    lemma_plain_key(LayerField::Source);
    lemma_plain_key(LayerField::Type);
    lemma_rendering_mode_key();
}

/// The keys of a layer record, letter by letter; no two fields share one.
#[verifier::rlimit(50)]
pub proof fn lemma_layer_keys()
    ensures
        LayerField::Id.key_spec() == "id"@,
        LayerField::Layout.key_spec() == "layout"@,
        LayerField::Maxzoom.key_spec() == "maxzoom"@,
        LayerField::Minzoom.key_spec() == "minzoom"@,
        LayerField::Paint.key_spec() == "paint"@,
        LayerField::RenderingMode.key_spec() == "renderingMode"@,
        LayerField::Source.key_spec() == "source"@,
        LayerField::SourceLayer.key_spec() == "source-layer"@,
        LayerField::Type.key_spec() == "type"@,
        forall|a: LayerField, b: LayerField| a != b ==> a.key_spec() != b.key_spec(),
{
    lemma_layer_key_texts();
    let id = LayerField::Id.key_spec();
    let layout = LayerField::Layout.key_spec();
    let maxzoom = LayerField::Maxzoom.key_spec();
    let minzoom = LayerField::Minzoom.key_spec();
    let paint = LayerField::Paint.key_spec();
    let mode = LayerField::RenderingMode.key_spec();
    let source = LayerField::Source.key_spec();
    let sublayer = LayerField::SourceLayer.key_spec();
    let kind = LayerField::Type.key_spec();
    assert(id.len() == 2 && layout.len() == 6 && maxzoom.len() == 7 && minzoom.len() == 7
        && paint.len() == 5 && mode.len() == 13 && source.len() == 6 && sublayer.len() == 12
        && kind.len() == 4 && layout[0] == 'l' && source[0] == 's' && maxzoom[1] == 'a'
        && minzoom[1] == 'i') by {
        reveal_strlit("id");
        reveal_strlit("layout");
        reveal_strlit("maxzoom");
        reveal_strlit("minzoom");
        reveal_strlit("paint");
        reveal_strlit("renderingMode");
        reveal_strlit("source");
        reveal_strlit("source-layer");
        reveal_strlit("type");
    }
    assert forall|a: LayerField, b: LayerField| a != b implies a.key_spec() != b.key_spec() by {
        if a.key_spec() == b.key_spec() {
            assert(a.key_spec().len() == b.key_spec().len());
            assert(a.key_spec()[0] == b.key_spec()[0]);
            assert(a.key_spec()[1] == b.key_spec()[1]);
        }
    }
}

/// The fields of a layout record.
#[derive(Clone, Copy, Debug, PartialEq, Eq, Structural)]
pub enum LayoutField {
    LineJoin,
    LineCap,
    IconImage,
    IconSize,
}

impl LayoutField {
    /// The field's identifier.
    pub open spec fn identifier_spec(self) -> Seq<char> {
        match self {
            LayoutField::LineJoin => "line_join"@,
            LayoutField::LineCap => "line_cap"@,
            LayoutField::IconImage => "icon_image"@,
            LayoutField::IconSize => "icon_size"@,
        }
    }

    /// The field's key on the wire: its identifier, hyphenated.
    pub open spec fn key_spec(self) -> Seq<char> {
        kebab_case_spec(self.identifier_spec())
    }

    /// The field's identifier.
    pub fn identifier(self) -> (name: &'static str)
        ensures
            name@ == self.identifier_spec(),
    {
        match self {
            LayoutField::LineJoin => "line_join",
            LayoutField::LineCap => "line_cap",
            LayoutField::IconImage => "icon_image",
            LayoutField::IconSize => "icon_size",
        }
    }

    /// The field's key on the wire.
    pub fn key(self) -> (key: String)
        ensures
            key@ == self.key_spec(),
    {
        kebab_case(self.identifier())
    }
}

/// The keys of a layout record, letter by letter; no two fields share one.
#[verifier::rlimit(50)]
pub proof fn lemma_layout_keys()
    ensures
        LayoutField::LineJoin.key_spec() == "line-join"@,
        LayoutField::LineCap.key_spec() == "line-cap"@,
        LayoutField::IconImage.key_spec() == "icon-image"@,
        LayoutField::IconSize.key_spec() == "icon-size"@,
        forall|a: LayoutField, b: LayoutField| a != b ==> a.key_spec() != b.key_spec(),
{
    reveal_strlit("line_join");
    reveal_strlit("line_cap");
    reveal_strlit("icon_image");
    reveal_strlit("icon_size");
    reveal_strlit("line-join");
    reveal_strlit("line-cap");
    reveal_strlit("icon-image");
    reveal_strlit("icon-size");
    assert(LayoutField::LineJoin.key_spec() =~= "line-join"@);
    assert(LayoutField::LineCap.key_spec() =~= "line-cap"@);
    assert(LayoutField::IconImage.key_spec() =~= "icon-image"@);
    assert(LayoutField::IconSize.key_spec() =~= "icon-size"@);
    assert("line-join"@[0] != "icon-size"@[0]);
    assert("icon-size"@.len() != "icon-image"@.len());
    assert("line-join"@.len() != "line-cap"@.len());
}

/// The fields of a paint record.
#[derive(Clone, Copy, Debug, PartialEq, Eq, Structural)]
pub enum PaintField {
    LineColor,
    LineWidth,
}

impl PaintField {
    /// The field's identifier.
    pub open spec fn identifier_spec(self) -> Seq<char> {
        match self {
            PaintField::LineColor => "line_color"@,
            PaintField::LineWidth => "line_width"@,
        }
    }

    /// The field's key on the wire: its identifier, hyphenated.
    pub open spec fn key_spec(self) -> Seq<char> {
        kebab_case_spec(self.identifier_spec())
    }

    /// The field's identifier.
    pub fn identifier(self) -> (name: &'static str)
        ensures
            name@ == self.identifier_spec(),
    {
        match self {
            PaintField::LineColor => "line_color",
            PaintField::LineWidth => "line_width",
        }
    }

    /// The field's key on the wire.
    pub fn key(self) -> (key: String)
        ensures
            key@ == self.key_spec(),
    {
        kebab_case(self.identifier())
    }
}

/// The keys of a paint record, letter by letter.
pub proof fn lemma_paint_keys()
    ensures
        PaintField::LineColor.key_spec() == "line-color"@,
        PaintField::LineWidth.key_spec() == "line-width"@,
        PaintField::LineColor.key_spec() != PaintField::LineWidth.key_spec(),
{
    reveal_strlit("line_color");
    reveal_strlit("line_width");
    reveal_strlit("line-color");
    reveal_strlit("line-width");
    assert(PaintField::LineColor.key_spec() =~= "line-color"@);
    assert(PaintField::LineWidth.key_spec() =~= "line-width"@);
    assert("line-color"@[5] != "line-width"@[5]);
}

} // verus!
