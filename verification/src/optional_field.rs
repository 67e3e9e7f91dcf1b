//! The optional fields of a header.

use crate::errors::{ErrorKind, MapFileException};
use crate::reader::{
    spec_read_byte,
    spec_read_int,
    spec_read_utf8,
    Parsed,
    ReadBuffer,
};
use crate::types::LatLong;
use vstd::prelude::*;

verus! {

/// The largest zoom level at which a map may ask to be opened.
pub const START_ZOOM_LEVEL_MAX: u8 = 22;

/// What `OptionalFields` holds.
pub struct OptionalFieldsView {
    pub comment: Option<Seq<char>>,
    pub created_by: Option<Seq<char>>,
    pub is_debug_file: bool,
    pub has_start_position: bool,
    pub has_start_zoom_level: bool,
    pub has_languages_preference: bool,
    pub has_comment: bool,
    pub has_created_by: bool,
    pub languages_preference: Option<Seq<char>>,
    pub start_position: Option<LatLong>,
    pub start_zoom_level: Option<u8>,
}

impl OptionalFieldsView {
    /// The fields that a flags byte announces, none of them read yet.
    pub open spec fn from_flags(flags: u8) -> OptionalFieldsView {
        OptionalFieldsView {
            comment: None,
            created_by: None,
            is_debug_file: flags & 0x80 != 0,
            has_start_position: flags & 0x40 != 0,
            has_start_zoom_level: flags & 0x20 != 0,
            has_languages_preference: flags & 0x10 != 0,
            has_comment: flags & 0x08 != 0,
            has_created_by: flags & 0x04 != 0,
            languages_preference: None,
            start_position: None,
            start_zoom_level: None,
        }
    }

    /// No field is announced and none is there.
    pub open spec fn empty() -> OptionalFieldsView {
        OptionalFieldsView {
            comment: None,
            created_by: None,
            is_debug_file: false,
            has_start_position: false,
            has_start_zoom_level: false,
            has_languages_preference: false,
            has_comment: false,
            has_created_by: false,
            languages_preference: None,
            start_position: None,
            start_zoom_level: None,
        }
    }
}

/// The view of a text that may be absent.
pub open spec fn text_view(text: Option<String>) -> Option<Seq<char>> {
    match text {
        Some(s) => Some(s@),
        None => None,
    }
}

/// The start position, if announced: latitude, then longitude, each four
/// bytes of micro-degrees.
pub open spec fn spec_start_position(present: bool, data: Seq<u8>, pos: int) -> Parsed<
    Option<LatLong>,
> {
    if !present {
        Ok((None, pos))
    } else {
        match spec_read_int(data, pos) {
            Ok((latitude, next)) => match spec_read_int(data, next) {
                Ok((longitude, end)) => Ok(
                    (
                        Some(LatLong { latitude: latitude as i64, longitude: longitude as i64 }),
                        end,
                    ),
                ),
                Err(e) => Err(e),
            },
            Err(e) => Err(e),
        }
    }
}

/// The start zoom level, if announced: one byte, at most 22; a larger one
/// fails with `MalformedHeader`, which carries it.
pub open spec fn spec_start_zoom_level(present: bool, data: Seq<u8>, pos: int) -> Parsed<
    Option<u8>,
> {
    if !present {
        Ok((None, pos))
    } else {
        match spec_read_byte(data, pos) {
            Ok((zoom_level, next)) => if zoom_level > START_ZOOM_LEVEL_MAX {
                Err(MapFileException { kind: ErrorKind::MalformedHeader, value: zoom_level as i64 })
            } else {
                Ok((Some(zoom_level), next))
            },
            Err(e) => Err(e),
        }
    }
}

/// A text with its length before it, if announced.
pub open spec fn spec_optional_text(present: bool, data: Seq<u8>, pos: int) -> Parsed<
    Option<Seq<char>>,
> {
    if !present {
        Ok((None, pos))
    } else {
        match spec_read_utf8(data, pos) {
            Ok((text, next)) => Ok((Some(text), next)),
            Err(e) => Err(e),
        }
    }
}

/// The announced fields, read in their order: start position, start zoom
/// level, languages, comment, creator.
pub open spec fn spec_optional_fields(fields: OptionalFieldsView, data: Seq<u8>, pos: int)
    -> Parsed<OptionalFieldsView> {
    match spec_start_position(fields.has_start_position, data, pos) {
        Err(e) => Err(e),
        Ok((start_position, pos1)) => match spec_start_zoom_level(
            fields.has_start_zoom_level,
            data,
            pos1,
        ) {
            Err(e) => Err(e),
            Ok((start_zoom_level, pos2)) => match spec_optional_text(
                fields.has_languages_preference,
                data,
                pos2,
            ) {
                Err(e) => Err(e),
                Ok((languages_preference, pos3)) => match spec_optional_text(
                    fields.has_comment,
                    data,
                    pos3,
                ) {
                    Err(e) => Err(e),
                    Ok((comment, pos4)) => match spec_optional_text(
                        fields.has_created_by,
                        data,
                        pos4,
                    ) {
                        Err(e) => Err(e),
                        Ok((created_by, pos5)) => Ok(
                            (
                                OptionalFieldsView {
                                    start_position,
                                    start_zoom_level,
                                    languages_preference,
                                    comment,
                                    created_by,
                                    ..fields
                                },
                                pos5,
                            ),
                        ),
                    },
                },
            },
        },
    }
}

/// The fields of a header that a flags byte announces.
pub struct OptionalFields {
    pub comment: Option<String>,
    pub created_by: Option<String>,
    pub is_debug_file: bool,
    pub has_start_position: bool,
    pub has_start_zoom_level: bool,
    pub has_languages_preference: bool,
    pub has_comment: bool,
    pub has_created_by: bool,
    pub languages_preference: Option<String>,
    pub start_position: Option<LatLong>,
    pub start_zoom_level: Option<u8>,
}

impl View for OptionalFields {
    type V = OptionalFieldsView;

    open spec fn view(&self) -> OptionalFieldsView {
        OptionalFieldsView {
            comment: text_view(self.comment),
            created_by: text_view(self.created_by),
            is_debug_file: self.is_debug_file,
            has_start_position: self.has_start_position,
            has_start_zoom_level: self.has_start_zoom_level,
            has_languages_preference: self.has_languages_preference,
            has_comment: self.has_comment,
            has_created_by: self.has_created_by,
            languages_preference: text_view(self.languages_preference),
            start_position: self.start_position,
            start_zoom_level: self.start_zoom_level,
        }
    }
}

impl Default for OptionalFields {
    fn default() -> (fields: Self)
        ensures
            fields@ == OptionalFieldsView::empty(),
    {
        OptionalFields {
            comment: None,
            created_by: None,
            is_debug_file: false,
            has_start_position: false,
            has_start_zoom_level: false,
            has_languages_preference: false,
            has_comment: false,
            has_created_by: false,
            languages_preference: None,
            start_position: None,
            start_zoom_level: None,
        }
    }
}

fn read_optional_text(present: bool, read_buffer: &mut ReadBuffer) -> (r: Result<
    Option<String>,
    MapFileException,
>)
    ensures
        match spec_optional_text(present, old(read_buffer)@.data, old(read_buffer)@.position) {
            Ok((text, next)) => r matches Ok(found) && text_view(found) == text && final(
                read_buffer
            )@ == old(read_buffer)@.at(next),
            Err(e) => r == Err::<Option<String>, MapFileException>(e) && final(read_buffer)@
                == old(read_buffer)@,
        },
{
    if present {
        Ok(Some(read_buffer.read_utf8_encoded_string()?))
    } else {
        Ok(None)
    }
}

impl OptionalFields {
    /// The fields that the flags byte announces, none of them read yet.
    pub fn new(flags: u8) -> (fields: Self)
        ensures
            fields@ == OptionalFieldsView::from_flags(flags),
    {
        OptionalFields {
            is_debug_file: (flags & 0x80) != 0,
            has_start_position: (flags & 0x40) != 0,
            has_start_zoom_level: (flags & 0x20) != 0,
            has_languages_preference: (flags & 0x10) != 0,
            has_comment: (flags & 0x08) != 0,
            has_created_by: (flags & 0x04) != 0,
            comment: None,
            created_by: None,
            languages_preference: None,
            start_position: None,
            start_zoom_level: None,
        }
    }

    /// Reads each announced field, in order. On failure the fields are as
    /// before, and of the buffer nothing but the cursor may differ.
    pub fn read_optional_fields(&mut self, read_buffer: &mut ReadBuffer) -> (r: Result<
        (),
        MapFileException,
    >)
        ensures
            match spec_optional_fields(
                old(self)@,
                old(read_buffer)@.data,
                old(read_buffer)@.position,
            ) {
                Ok((fields, next)) => r is Ok && final(self)@ == fields && final(read_buffer)@
                    == old(read_buffer)@.at(next),
                Err(e) => r == Err::<(), MapFileException>(e) && final(self)@ == old(self)@
                    && old(read_buffer)@.same_region(final(read_buffer)@),
            },
    {
        let mut start_position: Option<LatLong> = None;
        if self.has_start_position {
            let latitude: i32 = read_buffer.read_int()?;
            let longitude: i32 = read_buffer.read_int()?;
            start_position = Some(LatLong::new(latitude as i64, longitude as i64));
        }
        let mut start_zoom_level: Option<u8> = None;
        if self.has_start_zoom_level {
            let zoom_level: u8 = read_buffer.read_byte()?;
            if zoom_level > START_ZOOM_LEVEL_MAX {
                return Err(MapFileException::new(ErrorKind::MalformedHeader, zoom_level as i64));
            }
            start_zoom_level = Some(zoom_level);
        }
        let languages_preference: Option<String> = read_optional_text(
            self.has_languages_preference,
            read_buffer,
        )?;
        let comment: Option<String> = read_optional_text(self.has_comment, read_buffer)?;
        let created_by: Option<String> = read_optional_text(self.has_created_by, read_buffer)?;
        self.start_position = start_position;
        self.start_zoom_level = start_zoom_level;
        self.languages_preference = languages_preference;
        self.comment = comment;
        self.created_by = created_by;
        Ok(())
    }
}

} // verus!
