//! Answers with an image, in a group and in private: the file is uploaded as base64, and the
//! answer refers to the upload.

use vstd::prelude::*;
use crate::encoding;

verus! {

/// The kind of an uploaded file that is an image.
pub const FILE_TYPE_IMAGE: u32 = 1;

/// The type of a message that carries media.
pub const MSG_TYPE_MEDIA: u32 = 7;

/// What a group message says about itself.
#[derive(Debug)]
pub struct GroupMessage {
    pub id: Option<String>,
    pub group_openid: Option<String>,
    pub event_id: Option<String>,
}

/// The author of a private message.
#[derive(Debug)]
pub struct Author {
    pub user_openid: Option<String>,
}

/// What a private message says about itself.
#[derive(Debug)]
pub struct C2CMessage {
    pub id: Option<String>,
    pub author: Option<Author>,
    pub event_id: Option<String>,
}

/// Why a message cannot be answered with an image.
#[derive(Debug, Clone, Copy, PartialEq, Eq, Structural)]
pub enum MediaError {
    MissingGroupOpenid,
    MissingUserOpenid,
    MissingMessageId,
}

/// The message of a media error.
pub open spec fn media_error_text(e: MediaError) -> Seq<char> {
    match e {
        MediaError::MissingGroupOpenid => "Missing group_openid"@,
        MediaError::MissingUserOpenid => "Missing user_openid"@,
        MediaError::MissingMessageId => "Missing message id for passive reply"@,
    }
}

impl MediaError {
    /// The message of the error.
    pub fn message(&self) -> (r: String)
        ensures
            r@ == media_error_text(*self),
    {
        match self {
            MediaError::MissingGroupOpenid => "Missing group_openid".to_owned(),
            MediaError::MissingUserOpenid => "Missing user_openid".to_owned(),
            MediaError::MissingMessageId => "Missing message id for passive reply".to_owned(),
        }
    }
}

/// The body of an upload.
#[derive(Debug)]
pub struct UploadBody {
    pub file_type: u32,
    pub srv_send_msg: bool,
    pub file_data: String,
}

/// Whether `image` is small enough for its base64 to be held in memory.
pub open spec fn fits_base64(image: Seq<u8>) -> bool {
    (image.len() + 2) / 3 * 4 <= isize::MAX
}

/// Decides [`fits_base64`].
pub fn is_encodable(image_bytes: &[u8]) -> (r: bool)
    ensures
        r == fits_base64(image_bytes@),
{
    let n: usize = image_bytes.len();
    let groups: usize = if n % 3 == 0 {
        n / 3
    } else {
        n / 3 + 1
    };
    groups <= (isize::MAX as usize) / 4
}

/// Whether `body` uploads `image`: as an image, without a message of the server's own, its bytes in
/// base64.
pub open spec fn uploads(body: UploadBody, image: Seq<u8>) -> bool {
    &&& body.file_type == 1
    &&& !body.srv_send_msg
    &&& body.file_data@ == encoding::base64_encoded(image)
    &&& encoding::decodes_to(body.file_data@, image)
}

/// The body of the upload of an image whose base64 is `file_data`.
pub fn upload_file_body(file_data: String) -> (r: UploadBody)
    ensures
        r == (UploadBody { file_type: 1, srv_send_msg: false, file_data }),
{
    UploadBody { file_type: FILE_TYPE_IMAGE, srv_send_msg: false, file_data }
}

/// The body of the upload of an image.
pub fn upload_file_body_base64(image_bytes: &[u8]) -> (r: UploadBody)
    requires
        fits_base64(image_bytes@),
    ensures
        uploads(r, image_bytes@),
{
    upload_file_body(encoding::encode_base64(image_bytes))
}

/// The path to which files for a group are uploaded.
pub fn group_upload_path(group_openid: &str) -> (r: String)
    ensures
        r@ == "/v2/groups/"@ + group_openid@ + "/files"@,
{
    "/v2/groups/".to_owned().concat(group_openid).concat("/files")
}

/// The path to which files for a user are uploaded.
pub fn c2c_upload_path(user_openid: &str) -> (r: String)
    ensures
        r@ == "/v2/users/"@ + user_openid@ + "/files"@,
{
    "/v2/users/".to_owned().concat(user_openid).concat("/files")
}

/// The fields of an answer with media, but for the media.
#[derive(Debug)]
pub struct MediaParams {
    pub msg_type: u32,
    pub content: Option<String>,
    pub msg_id: Option<String>,
    pub msg_seq: Option<u32>,
    pub event_id: Option<String>,
}

/// An answer with an image: what to upload where, and then what to send to whom.
#[derive(Debug)]
pub struct MediaReply {
    pub openid: String,
    pub upload_path: String,
    pub body: UploadBody,
    pub params: MediaParams,
}

/// Whether `caption` is handed on as `content`.
pub open spec fn is_caption(content: Option<String>, caption: Option<&str>) -> bool {
    match caption {
        None => content is None,
        Some(s) => content matches Some(t) && t@ == s@,
    }
}

fn caption_content(caption: Option<&str>) -> (r: Option<String>)
    ensures
        is_caption(r, caption),
{
    match caption {
        None => None,
        Some(s) => Some(s.to_owned()),
    }
}

/// Answers a group message with a PNG. It needs the group and the message to answer to; the group
/// is asked for first.
pub fn reply_group_with_png_bytes(
    message: &GroupMessage,
    caption: Option<&str>,
    png_bytes: &[u8],
) -> (r: Result<MediaReply, MediaError>)
    requires
        fits_base64(png_bytes@),
    ensures
        match r {
            Ok(reply) => {
                &&& message.group_openid == Some(reply.openid)
                &&& reply.upload_path@ == "/v2/groups/"@ + reply.openid@ + "/files"@
                &&& uploads(reply.body, png_bytes@)
                &&& reply.params.msg_type == 7
                &&& is_caption(reply.params.content, caption)
                &&& message.id is Some
                &&& reply.params.msg_id == message.id
                &&& reply.params.msg_seq is None
                &&& reply.params.event_id == message.event_id
            },
            Err(e) => if message.group_openid is None {
                e == MediaError::MissingGroupOpenid
            } else {
                message.id is None && e == MediaError::MissingMessageId
            },
        },
        answers(
            "/v2/groups/"@,
            None,
            MediaError::MissingGroupOpenid,
            message.group_openid,
            message.id,
            message.event_id,
            caption,
            png_bytes@,
            r,
        ),
{
    let openid = match &message.group_openid {
        None => {
            return Err(MediaError::MissingGroupOpenid);
        },
        Some(openid) => openid.clone(),
    };
    let msg_id = match &message.id {
        None => {
            return Err(MediaError::MissingMessageId);
        },
        Some(id) => id.clone(),
    };
    let upload_path = group_upload_path(openid.as_str());
    Ok(
        MediaReply {
            openid,
            upload_path,
            body: upload_file_body_base64(png_bytes),
            params: MediaParams {
                msg_type: MSG_TYPE_MEDIA,
                content: caption_content(caption),
                msg_id: Some(msg_id),
                msg_seq: None,
                event_id: clone_text(&message.event_id),
            },
        },
    )
}

fn clone_text(s: &Option<String>) -> (r: Option<String>)
    ensures
        r == *s,
{
    match s {
        None => None,
        Some(t) => Some(t.clone()),
    }
}

/// The user who wrote a private message, where the message tells.
pub open spec fn author_openid(message: C2CMessage) -> Option<String> {
    match message.author {
        None => None,
        Some(author) => author.user_openid,
    }
}

/// Answers a private message with a PNG. It needs the user and the message to answer to; the user
/// is asked for first. The answer is the first to the message.
pub fn reply_c2c_with_png_bytes(
    message: &C2CMessage,
    caption: Option<&str>,
    png_bytes: &[u8],
) -> (r: Result<MediaReply, MediaError>)
    requires
        fits_base64(png_bytes@),
    ensures
        match r {
            Ok(reply) => {
                &&& author_openid(*message) == Some(reply.openid)
                &&& reply.upload_path@ == "/v2/users/"@ + reply.openid@ + "/files"@
                &&& uploads(reply.body, png_bytes@)
                &&& reply.params.msg_type == 7
                &&& is_caption(reply.params.content, caption)
                &&& message.id is Some
                &&& reply.params.msg_id == message.id
                &&& reply.params.msg_seq == Some(1u32)
                &&& reply.params.event_id == message.event_id
            },
            Err(e) => if author_openid(*message) is None {
                e == MediaError::MissingUserOpenid
            } else {
                message.id is None && e == MediaError::MissingMessageId
            },
        },
        answers(
            "/v2/users/"@,
            Some(1u32),
            MediaError::MissingUserOpenid,
            author_openid(*message),
            message.id,
            message.event_id,
            caption,
            png_bytes@,
            r,
        ),
{
    let openid = match &message.author {
        None => {
            return Err(MediaError::MissingUserOpenid);
        },
        Some(author) => match &author.user_openid {
            None => {
                return Err(MediaError::MissingUserOpenid);
            },
            Some(openid) => openid.clone(),
        },
    };
    let msg_id = match &message.id {
        None => {
            return Err(MediaError::MissingMessageId);
        },
        Some(id) => id.clone(),
    };
    let upload_path = c2c_upload_path(openid.as_str());
    Ok(
        MediaReply {
            openid,
            upload_path,
            body: upload_file_body_base64(png_bytes),
            params: MediaParams {
                msg_type: MSG_TYPE_MEDIA,
                content: caption_content(caption),
                msg_id: Some(msg_id),
                msg_seq: Some(1),
                event_id: clone_text(&message.event_id),
            },
        },
    )
}

/// The image that is uploaded is the one that the worker rendered: both texts decode to the same
/// bytes.
pub proof fn law_uploaded_image_is_the_rendered_one(
    response: crate::worker::RenderResponse,
    image: Vec<u8>,
    body: UploadBody,
)
    requires
        crate::worker::response_outcome(response, Ok(image)),
        uploads(body, image@),
    ensures
        response.data is Some,
        encoding::base64_decoded(body.file_data@) == encoding::base64_decoded(response.data->0@),
{
}

/// An upload is an image, sent without a message of the server's own, and its data decodes to the
/// image byte for byte; a caption is handed on as it is.
pub proof fn law_upload_holds_the_image(
    body: UploadBody,
    image: Seq<u8>,
    content: Option<String>,
    caption: &str,
)
    ensures
        uploads(body, image) ==> {
            &&& body.file_type == 1
            &&& !body.srv_send_msg
            &&& body.file_data@ == encoding::base64_encoded(image)
            &&& encoding::base64_decoded(body.file_data@) == Ok::<Seq<u8>, encoding::DecodeFailure>(
                image,
            )
        },
        is_caption(content, Some(caption)) ==> content is Some && content->0@ == caption@,
        is_caption(content, None) ==> content is None,
{
}

/// Every image is encodable whose base64, four symbols for each three bytes begun, a vector can
/// hold.
pub proof fn law_encodable_images_fit(image: Seq<u8>, groups: nat)
    requires
        3 * groups >= image.len(),
        image.len() > 3 * (groups - 1),
    ensures
        fits_base64(image) <==> 4 * groups <= isize::MAX,
{
    assert((image.len() + 2) / 3 == groups);
}

/// The user of a private message is the one that its author names; an error says what is missing.
pub proof fn law_missing_address_is_named(message: C2CMessage, author: Author)
    ensures
        message.author is None ==> author_openid(message) is None,
        message.author == Some(author) ==> author_openid(message) == author.user_openid,
        media_error_text(MediaError::MissingGroupOpenid) == "Missing group_openid"@,
        media_error_text(MediaError::MissingUserOpenid) == "Missing user_openid"@,
        media_error_text(MediaError::MissingMessageId) == "Missing message id for passive reply"@,
{
}

/// Whether `r` answers a message with an image: `openid` is whom the message came from, and files for
/// it are uploaded under `base`; `missing` says that the message does not tell.
pub open spec fn answers(
    base: Seq<char>,
    msg_seq: Option<u32>,
    missing: MediaError,
    openid: Option<String>,
    msg_id: Option<String>,
    event_id: Option<String>,
    caption: Option<&str>,
    image: Seq<u8>,
    r: Result<MediaReply, MediaError>,
) -> bool {
    match r {
        Ok(reply) => {
            &&& openid == Some(reply.openid)
            &&& msg_id is Some
            &&& reply.upload_path@ == base + reply.openid@ + "/files"@
            &&& uploads(reply.body, image)
            &&& reply.params.msg_type == 7
            &&& is_caption(reply.params.content, caption)
            &&& reply.params.msg_id == msg_id
            &&& reply.params.msg_seq == msg_seq
            &&& reply.params.event_id == event_id
        },
        Err(e) => if openid is None {
            e == missing
        } else {
            msg_id is None && e == MediaError::MissingMessageId
        },
    }
}

/// An image is sent exactly where the message tells whom it came from and which message it is; it
/// is uploaded for that sender, and sent back to it as the answer to that message, with the event
/// and the caption that were given and with the bytes of the image.
pub proof fn law_answer_goes_back_to_sender(
    base: Seq<char>,
    msg_seq: Option<u32>,
    missing: MediaError,
    openid: Option<String>,
    msg_id: Option<String>,
    event_id: Option<String>,
    caption: Option<&str>,
    image: Seq<u8>,
    r: Result<MediaReply, MediaError>,
)
    requires
        answers(base, msg_seq, missing, openid, msg_id, event_id, caption, image, r),
    ensures
        openid is None ==> r == Err::<MediaReply, MediaError>(missing),
        openid is Some && msg_id is Some ==> r is Ok,
        openid is Some && msg_id is None ==> r == Err::<MediaReply, MediaError>(
            MediaError::MissingMessageId,
        ),
        r matches Ok(reply) ==> {
            &&& reply.openid == openid->0
            &&& reply.upload_path@ == base + openid->0@ + "/files"@
            &&& reply.body.file_type == 1 && !reply.body.srv_send_msg
            &&& encoding::base64_decoded(reply.body.file_data@) == Ok::<
                Seq<u8>,
                encoding::DecodeFailure,
            >(image)
            &&& reply.params.msg_type == 7
            &&& reply.params.msg_id == msg_id
            &&& reply.params.msg_seq == msg_seq
            &&& reply.params.event_id == event_id
            &&& (caption is None ==> reply.params.content is None)
            &&& (caption is Some ==> reply.params.content is Some && reply.params.content->0@
                == caption->0@)
        },
{
}

} // verus!
