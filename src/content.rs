//! Page content: the content stream with its drawing operations, and the images and texts
//! that those operations place.

use vstd::prelude::*;
use vstd::string::StringSliceAdditionalSpecFns;
use crate::bytes::{dec, push_bytes, push_dec, push_str};
use crate::color::{color_ops_bytes, component_count, Color};
use crate::identifier::{identifier_bytes, Identifier};
use crate::name::{name_bytes, Name};
use crate::number::{Number, Position};
use crate::obj_id::ObjId;
use crate::object::{write_def_line, Object};
use crate::stream::{stream_bytes, Stream};
use crate::string::{literal_bytes, PdfString};

verus! {

/// Where an image goes and how large it is drawn, in user-space units.
#[derive(Debug, Clone)]
pub struct ImageTransform {
    /// The lower-left corner of the image.
    pub position: Position,
    /// The drawn width (`x`) and height (`y`).
    pub scale: Position,
}

/// The operations that paint image `name` under transform `t`: save the graphics state, set
/// the matrix `width 0 0 height x y cm`, paint, restore.
pub open spec fn draw_image_bytes(name: Seq<u8>, t: ImageTransform) -> Seq<u8> {
    "q\n".spec_bytes() + t.scale.x@ + " 0 0 ".spec_bytes() + t.scale.y@ + " ".spec_bytes()
        + t.position.x@ + " ".spec_bytes() + t.position.y@ + " cm".spec_bytes() + "\n".spec_bytes()
        + name_bytes(name) + "Do".spec_bytes() + "\n".spec_bytes() + "Q\n".spec_bytes()
}

/// A text to be shown on a page: its content, font size, position and fill colour.
#[derive(Debug, Clone)]
pub struct Text {
    content: PdfString,
    size: u32,
    position: Position,
    color: Color,
    color_values: Vec<Number>,
}

/// The operations that show a text: begin text, fill colour, font and size, position, the
/// string, end text.
pub open spec fn text_bytes(
    content: Seq<u8>,
    size: u32,
    position: Position,
    color: Color,
    values: Seq<Number>,
    font: Seq<u8>,
) -> Seq<u8> {
    "BT\n".spec_bytes() + color_ops_bytes(color, "cs".spec_bytes(), "sc".spec_bytes(), values)
        + name_bytes(font) + dec(size as nat) + " ".spec_bytes() + "Tf".spec_bytes() + "\n".spec_bytes()
        + position.x@ + " ".spec_bytes() + position.y@ + " ".spec_bytes() + "Td".spec_bytes()
        + "\n".spec_bytes() + literal_bytes(content) + " ".spec_bytes() + "Tj".spec_bytes()
        + "\n".spec_bytes() + "ET\n".spec_bytes()
}

impl Text {
    /// The UTF-8 bytes of the content.
    pub closed spec fn spec_content(&self) -> Seq<u8> {
        self.content@
    }

    /// The font size.
    pub closed spec fn spec_size(&self) -> u32 {
        self.size
    }

    /// The position.
    pub closed spec fn spec_position(&self) -> Position {
        self.position
    }

    /// The fill colour.
    pub closed spec fn spec_color(&self) -> Color {
        self.color
    }

    /// The normalized components of the fill colour, as written.
    pub closed spec fn spec_color_values(&self) -> Seq<Number> {
        self.color_values@
    }

    /// The text's invariant: one written value per colour component.
    pub closed spec fn wf(&self) -> bool {
        self.color_values@.len() == component_count(self.color)
    }

    /// The bytes that show this text in font `font`.
    pub open spec fn spec_bytes(&self, font: Seq<u8>) -> Seq<u8> {
        text_bytes(
            self.spec_content(),
            self.spec_size(),
            self.spec_position(),
            self.spec_color(),
            self.spec_color_values(),
            font,
        )
    }

    /// A builder for an empty text of size 12 in black at the origin; it must be given a
    /// position before it builds.
    pub fn builder() -> (r: TextBuilder)
        ensures
            r.wf(),
            !r.is_placed(),
            r.spec_text().spec_content() == Seq::<u8>::empty(),
            r.spec_text().spec_size() == 12,
            r.spec_text().spec_position().x@ == dec(0),
            r.spec_text().spec_position().y@ == dec(0),
            r.spec_text().spec_color() == (Color::Rgb { red: 0, green: 0, blue: 0 }),
            r.spec_text().spec_color_values().len() == 3,
            forall|i: int| 0 <= i < 3 ==> #[trigger] r.spec_text().spec_color_values()[i]@ == dec(0),
    {
        proof {
            reveal_strlit("");
        }
        let values: Vec<Number> = vec![Number::from_u32(0), Number::from_u32(0), Number::from_u32(0)];
        TextBuilder {
            inner: Text {
                content: PdfString::from(""),
                size: 12,
                position: Position::origin(),
                color: Color::black(),
                color_values: values,
            },
            placed: false,
        }
    }

    /// Appends the content to the text.
    fn expand(&mut self, content: &str)
        ensures
            final(self).spec_content() == old(self).spec_content() + content.spec_bytes(),
            final(self).spec_size() == old(self).spec_size(),
            final(self).spec_position() == old(self).spec_position(),
            final(self).spec_color() == old(self).spec_color(),
            final(self).spec_color_values() == old(self).spec_color_values(),
            final(self).wf() == old(self).wf(),
    {
        self.content.expand(content);
    }

    /// The operations that show this text in the font named `font_name`.
    pub fn to_bytes(&self, font_name: &Name) -> (r: Vec<u8>)
        requires
            self.wf(),
        ensures
            r@ == self.spec_bytes(font_name@),
    {
        let mut out: Vec<u8> = Vec::new();
        push_str(&mut out, "BT\n");
        self.color.write_non_stroke(&mut out, &self.color_values);
        font_name.write(&mut out);
        push_dec(&mut out, self.size as u64);
        push_str(&mut out, " ");
        push_str(&mut out, "Tf");
        push_str(&mut out, "\n");
        self.position.x.write(&mut out);
        push_str(&mut out, " ");
        self.position.y.write(&mut out);
        push_str(&mut out, " ");
        push_str(&mut out, "Td");
        push_str(&mut out, "\n");
        self.content.write_content(&mut out);
        push_str(&mut out, " ");
        push_str(&mut out, "Tj");
        push_str(&mut out, "\n");
        push_str(&mut out, "ET\n");
        assert(out@ =~= self.spec_bytes(font_name@));
        out
    }
}

/// Builds a [`Text`]; `build` is available once a position is set with `at`.
#[derive(Debug, Clone)]
pub struct TextBuilder {
    inner: Text,
    placed: bool,
}

impl TextBuilder {
    /// The text built so far.
    pub closed spec fn spec_text(&self) -> Text {
        self.inner
    }

    /// Whether a position has been set.
    pub closed spec fn is_placed(&self) -> bool {
        self.placed
    }

    /// The builder's invariant.
    pub closed spec fn wf(&self) -> bool {
        self.inner.wf()
    }

    /// Sets the position of the text.
    pub fn at(self, pos: Position) -> (r: Self)
        requires
            self.wf(),
        ensures
            r.wf(),
            r.is_placed(),
            r.spec_text().spec_position() == pos,
            r.spec_text().spec_content() == self.spec_text().spec_content(),
            r.spec_text().spec_size() == self.spec_text().spec_size(),
            r.spec_text().spec_color() == self.spec_text().spec_color(),
            r.spec_text().spec_color_values() == self.spec_text().spec_color_values(),
    {
        let mut b = self;
        b.inner.position = pos;
        b.placed = true;
        b
    }

    /// Replaces the content of the text.
    pub fn with_content(self, content: &str) -> (r: Self)
        requires
            self.wf(),
        ensures
            r.wf(),
            r.is_placed() == self.is_placed(),
            r.spec_text().spec_content() == content.spec_bytes(),
            r.spec_text().spec_position() == self.spec_text().spec_position(),
            r.spec_text().spec_size() == self.spec_text().spec_size(),
            r.spec_text().spec_color() == self.spec_text().spec_color(),
            r.spec_text().spec_color_values() == self.spec_text().spec_color_values(),
    {
        let mut b = self;
        b.inner.content = PdfString::from(content);
        b
    }

    /// Appends to the content of the text.
    pub fn with_expanded_content(self, content: &str) -> (r: Self)
        requires
            self.wf(),
        ensures
            r.wf(),
            r.is_placed() == self.is_placed(),
            r.spec_text().spec_content() == self.spec_text().spec_content() + content.spec_bytes(),
            r.spec_text().spec_position() == self.spec_text().spec_position(),
            r.spec_text().spec_size() == self.spec_text().spec_size(),
            r.spec_text().spec_color() == self.spec_text().spec_color(),
            r.spec_text().spec_color_values() == self.spec_text().spec_color_values(),
    {
        let mut b = self;
        b.inner.expand(content);
        b
    }

    /// Sets the font size.
    pub fn with_size(self, size: u32) -> (r: Self)
        requires
            self.wf(),
        ensures
            r.wf(),
            r.is_placed() == self.is_placed(),
            r.spec_text().spec_size() == size,
            r.spec_text().spec_content() == self.spec_text().spec_content(),
            r.spec_text().spec_position() == self.spec_text().spec_position(),
            r.spec_text().spec_color() == self.spec_text().spec_color(),
            r.spec_text().spec_color_values() == self.spec_text().spec_color_values(),
    {
        let mut b = self;
        b.inner.size = size;
        b
    }

    /// Sets the fill colour; `values` are its components normalized to the range 0 to 1.
    pub fn with_color(self, color: Color, values: Vec<Number>) -> (r: Self)
        requires
            self.wf(),
            values@.len() == component_count(color),
        ensures
            r.wf(),
            r.is_placed() == self.is_placed(),
            r.spec_text().spec_color() == color,
            r.spec_text().spec_color_values() == values@,
            r.spec_text().spec_content() == self.spec_text().spec_content(),
            r.spec_text().spec_position() == self.spec_text().spec_position(),
            r.spec_text().spec_size() == self.spec_text().spec_size(),
    {
        let mut b = self;
        b.inner.color = color;
        b.inner.color_values = values;
        b
    }

    /// The text built so far.
    pub fn build(self) -> (r: Text)
        requires
            self.wf(),
            self.is_placed(),
        ensures
            r.wf(),
            r == self.spec_text(),
    {
        self.inner
    }
}

/// The colour space of an image's samples.
#[derive(Debug, Clone, Copy, PartialEq, Eq, Structural)]
pub enum ColorSpace {
    /// Three components per sample: red, green, blue.
    DeviceRgb,
    /// One gray component per sample.
    DeviceGray,
}

/// The name of a colour space of samples.
pub open spec fn color_space_name(c: ColorSpace) -> Seq<u8> {
    match c {
        ColorSpace::DeviceRgb => "DeviceRGB".spec_bytes(),
        ColorSpace::DeviceGray => "DeviceGray".spec_bytes(),
    }
}

impl ColorSpace {
    /// Appends the name of the colour space.
    pub fn write(&self, out: &mut Vec<u8>) -> (n: usize)
        ensures
            final(out)@ == old(out)@ + identifier_bytes(color_space_name(*self)),
            n == identifier_bytes(color_space_name(*self)).len(),
    {
        match self {
            ColorSpace::DeviceRgb => {
                proof {
                    reveal_strlit("DeviceRGB");
                    vstd::string::is_ascii_spec_bytes("DeviceRGB");
                }
                Identifier::from_str("DeviceRGB").write(out)
            },
            ColorSpace::DeviceGray => {
                proof {
                    reveal_strlit("DeviceGray");
                    vstd::string::is_ascii_spec_bytes("DeviceGray");
                }
                Identifier::from_str("DeviceGray").write(out)
            },
        }
    }
}

/// The dictionary entries of an image stream, before `/Length`.
pub open spec fn image_dict_bytes(width: u32, height: u32, space: ColorSpace, bits: u8) -> Seq<u8> {
    identifier_bytes("Type".spec_bytes()) + identifier_bytes("XObject".spec_bytes()) + "\n".spec_bytes()
        + identifier_bytes("Subtype".spec_bytes()) + identifier_bytes("Image".spec_bytes()) + "\n".spec_bytes()
        + identifier_bytes("Width".spec_bytes()) + dec(width as nat) + "\n".spec_bytes()
        + identifier_bytes("Height".spec_bytes()) + dec(height as nat) + "\n".spec_bytes()
        + identifier_bytes("ColorSpace".spec_bytes()) + identifier_bytes(color_space_name(space)) + "\n".spec_bytes()
        + identifier_bytes("BitsPerComponent".spec_bytes()) + dec(bits as nat) + "\n".spec_bytes()
}

/// A sampled image: decoded samples, their dimensions and colour space, and where it goes on
/// the page.
#[derive(Debug)]
pub struct Image {
    samples: Stream,
    width: u32,
    height: u32,
    color_space: ColorSpace,
    bits_per_comp: u8,
    transform: ImageTransform,
}

impl Image {
    /// The body of the image object: a stream with the image dictionary.
    pub closed spec fn content(&self) -> Seq<u8> {
        stream_bytes(
            image_dict_bytes(self.width, self.height, self.color_space, self.bits_per_comp),
            self.samples@,
        ) + "\n".spec_bytes()
    }

    /// The transform the image is drawn with.
    pub closed spec fn spec_transform(&self) -> ImageTransform {
        self.transform
    }

    /// The samples.
    pub closed spec fn spec_samples(&self) -> Seq<u8> {
        self.samples@
    }

    /// A builder for an image of `width` by `height` RGB samples of 8 bits, drawn at the origin
    /// at one unit per sample.
    pub fn from_rgb8(width: u32, height: u32, pixels: Vec<u8>) -> (r: ImageBuilder)
        ensures
            !r.is_placed(),
            r.spec_image().spec_samples() == pixels@,
            r.spec_image().content() == stream_bytes(
                image_dict_bytes(width, height, ColorSpace::DeviceRgb, 8),
                pixels@,
            ) + "\n".spec_bytes(),
            r.spec_image().spec_transform().position.x@ == dec(0),
            r.spec_image().spec_transform().position.y@ == dec(0),
            r.spec_image().spec_transform().scale.x@ == dec(width as nat),
            r.spec_image().spec_transform().scale.y@ == dec(height as nat),
    {
        ImageBuilder {
            inner: Image {
                samples: Stream::with_bytes(pixels),
                width,
                height,
                color_space: ColorSpace::DeviceRgb,
                bits_per_comp: 8,
                transform: ImageTransform {
                    position: Position::origin(),
                    scale: Position::new(Number::from_u32(width), Number::from_u32(height)),
                },
            },
            placed: false,
        }
    }

    /// Sets the drawn width and height.
    pub fn set_dimensions(&mut self, width: Number, height: Number)
        ensures
            final(self).spec_transform().scale.x@ == width@,
            final(self).spec_transform().scale.y@ == height@,
            final(self).spec_transform().position == old(self).spec_transform().position,
            final(self).content() == old(self).content(),
    {
        self.set_width(width);
        self.set_height(height);
    }

    /// Sets the drawn width.
    pub fn set_width(&mut self, width: Number)
        ensures
            final(self).spec_transform().scale.x@ == width@,
            final(self).spec_transform().scale.y == old(self).spec_transform().scale.y,
            final(self).spec_transform().position == old(self).spec_transform().position,
            final(self).content() == old(self).content(),
    {
        self.transform.scale.x = width;
    }

    /// Sets the drawn height.
    pub fn set_height(&mut self, height: Number)
        ensures
            final(self).spec_transform().scale.y@ == height@,
            final(self).spec_transform().scale.x == old(self).spec_transform().scale.x,
            final(self).spec_transform().position == old(self).spec_transform().position,
            final(self).content() == old(self).content(),
    {
        self.transform.scale.y = height;
    }

    /// Sets the position of the lower-left corner.
    pub fn set_pos(&mut self, position: Position)
        ensures
            final(self).spec_transform().position == position,
            final(self).spec_transform().scale == old(self).spec_transform().scale,
            final(self).content() == old(self).content(),
    {
        self.transform.position = position;
    }

    /// The transform the image is drawn with.
    pub fn transform(&self) -> (r: ImageTransform)
        ensures
            r.position.x@ == self.spec_transform().position.x@,
            r.position.y@ == self.spec_transform().position.y@,
            r.scale.x@ == self.spec_transform().scale.x@,
            r.scale.y@ == self.spec_transform().scale.y@,
    {
        ImageTransform {
            position: Position::new(self.transform.position.x.clone(), self.transform.position.y.clone()),
            scale: Position::new(self.transform.scale.x.clone(), self.transform.scale.y.clone()),
        }
    }

    /// Appends the body of the image object.
    pub fn write_content(&self, out: &mut Vec<u8>) -> (n: usize)
        ensures
            final(out)@ == old(out)@ + self.content(),
            n == self.content().len(),
    {
        let ghost start = out@;
        let first = out.len();
        let mut dict: Vec<u8> = Vec::new();
        proof {
            reveal_strlit("Type");
            vstd::string::is_ascii_spec_bytes("Type");
            reveal_strlit("XObject");
            vstd::string::is_ascii_spec_bytes("XObject");
            reveal_strlit("Subtype");
            vstd::string::is_ascii_spec_bytes("Subtype");
            reveal_strlit("Image");
            vstd::string::is_ascii_spec_bytes("Image");
            reveal_strlit("Width");
            vstd::string::is_ascii_spec_bytes("Width");
            reveal_strlit("Height");
            vstd::string::is_ascii_spec_bytes("Height");
            reveal_strlit("ColorSpace");
            vstd::string::is_ascii_spec_bytes("ColorSpace");
            reveal_strlit("BitsPerComponent");
            vstd::string::is_ascii_spec_bytes("BitsPerComponent");
        }
        Identifier::from_str("Type").write(&mut dict);
        Identifier::from_str("XObject").write(&mut dict);
        push_str(&mut dict, "\n");
        Identifier::from_str("Subtype").write(&mut dict);
        Identifier::from_str("Image").write(&mut dict);
        push_str(&mut dict, "\n");
        Identifier::from_str("Width").write(&mut dict);
        push_dec(&mut dict, self.width as u64);
        push_str(&mut dict, "\n");
        Identifier::from_str("Height").write(&mut dict);
        push_dec(&mut dict, self.height as u64);
        push_str(&mut dict, "\n");
        Identifier::from_str("ColorSpace").write(&mut dict);
        self.color_space.write(&mut dict);
        push_str(&mut dict, "\n");
        Identifier::from_str("BitsPerComponent").write(&mut dict);
        push_dec(&mut dict, self.bits_per_comp as u64);
        push_str(&mut dict, "\n");
        assert(dict@ =~= image_dict_bytes(self.width, self.height, self.color_space, self.bits_per_comp));
        self.samples.write_with_dict(out, dict.as_slice());
        push_str(out, "\n");
        assert(out@ =~= start + self.content());
        out.len() - first
    }
}

/// Builds an [`Image`]; `build` is available once a position is set with `at`.
pub struct ImageBuilder {
    inner: Image,
    placed: bool,
}

impl ImageBuilder {
    /// The image built so far.
    pub closed spec fn spec_image(&self) -> Image {
        self.inner
    }

    /// Whether a position has been set.
    pub closed spec fn is_placed(&self) -> bool {
        self.placed
    }

    /// Sets the position of the image on the page.
    pub fn at(self, pos: Position) -> (r: Self)
        ensures
            r.is_placed(),
            r.spec_image().spec_transform().position == pos,
            r.spec_image().spec_transform().scale == self.spec_image().spec_transform().scale,
            r.spec_image().content() == self.spec_image().content(),
    {
        let mut b = self;
        b.inner.transform.position = pos;
        b.placed = true;
        b
    }

    /// Sets the drawn width (`x`) and height (`y`).
    pub fn scaled(self, scale: Position) -> (r: Self)
        ensures
            r.is_placed() == self.is_placed(),
            r.spec_image().spec_transform().scale == scale,
            r.spec_image().spec_transform().position == self.spec_image().spec_transform().position,
            r.spec_image().content() == self.spec_image().content(),
    {
        let mut b = self;
        b.inner.transform.scale = scale;
        b
    }

    /// Rotation is not supported; the builder is returned unchanged.
    pub fn rotated(self, _degree: usize) -> (r: Self)
        ensures
            r == self,
    {
        self
    }

    /// The image built so far.
    pub fn build(self) -> (r: Image)
        requires
            self.is_placed(),
        ensures
            r == self.spec_image(),
    {
        self.inner
    }
}

/// The content stream of a page: an object whose stream collects the page's drawing
/// operations.
#[derive(Debug)]
pub struct ContentStream {
    id: ObjId,
    stream: Stream,
}

impl ContentStream {
    /// The operations collected so far.
    pub closed spec fn ops(&self) -> Seq<u8> {
        self.stream@
    }

    /// The identifier of the stream object.
    pub closed spec fn spec_id(&self) -> ObjId {
        self.id
    }

    /// An empty content stream with identifier `id`.
    pub fn new(id: ObjId) -> (r: Self)
        ensures
            r.ops() == Seq::<u8>::empty(),
            r.spec_id() == id,
    {
        ContentStream { id, stream: Stream::new() }
    }

    /// Appends the operations that paint image `name` under `transform`.
    pub fn draw_image(&mut self, name: &Name, transform: &ImageTransform)
        ensures
            final(self).ops() == old(self).ops() + draw_image_bytes(name@, *transform),
            final(self).spec_id() == old(self).spec_id(),
    {
        let mut ops: Vec<u8> = Vec::new();
        push_str(&mut ops, "q\n");
        transform.scale.x.write(&mut ops);
        push_str(&mut ops, " 0 0 ");
        transform.scale.y.write(&mut ops);
        push_str(&mut ops, " ");
        transform.position.x.write(&mut ops);
        push_str(&mut ops, " ");
        transform.position.y.write(&mut ops);
        push_str(&mut ops, " cm");
        push_str(&mut ops, "\n");
        name.write(&mut ops);
        push_str(&mut ops, "Do");
        push_str(&mut ops, "\n");
        push_str(&mut ops, "Q\n");
        assert(ops@ =~= draw_image_bytes(name@, *transform));
        self.stream.push_bytes(ops.as_slice());
    }

    /// Appends the operations that show `text` in the font named `font_name`.
    pub fn draw_text(&mut self, text: &Text, font_name: &Name)
        requires
            text.wf(),
        ensures
            final(self).ops() == old(self).ops() + text.spec_bytes(font_name@),
            final(self).spec_id() == old(self).spec_id(),
    {
        let ops = text.to_bytes(font_name);
        self.stream.push_bytes(ops.as_slice());
    }

    /// Whether no operation has been added.
    pub fn is_empty(&self) -> (r: bool)
        ensures
            r == (self.ops().len() == 0),
    {
        self.stream.is_empty()
    }

    /// The identifier of the stream object.
    pub fn obj_ref(&self) -> (r: &ObjId)
        ensures
            *r == self.spec_id(),
    {
        &self.id
    }
}

impl Object for ContentStream {
    open spec fn spec_obj_id(&self) -> u64 {
        self.spec_id().spec_id()
    }

    open spec fn content(&self) -> Seq<u8> {
        stream_bytes(Seq::empty(), self.ops()) + "\n".spec_bytes()
    }

    fn write_def(&self, out: &mut Vec<u8>) -> (n: usize) {
        write_def_line(&self.id, out)
    }

    fn write_content(&self, out: &mut Vec<u8>) -> (n: usize) {
        let ghost start = out@;
        let first = out.len();
        self.stream.write(out);
        push_str(out, "\n");
        assert(out@ =~= start + self.content());
        out.len() - first
    }
}

} // verus!
