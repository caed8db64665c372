use qbot_with_typ::qq_media::{
    c2c_upload_path, group_upload_path, is_encodable, reply_c2c_with_png_bytes, reply_group_with_png_bytes,
    upload_file_body, upload_file_body_base64, Author, C2CMessage, GroupMessage, MediaError,
};
use qbot_with_typ::worker::{response_image, RenderResponse};

fn group_message(id: Option<&str>, group: Option<&str>) -> GroupMessage {
    GroupMessage {
        id: id.map(str::to_string),
        group_openid: group.map(str::to_string),
        event_id: Some("event".to_string()),
    }
}

fn private_message(id: Option<&str>, user: Option<Option<&str>>) -> C2CMessage {
    C2CMessage {
        id: id.map(str::to_string),
        author: user.map(|u| Author { user_openid: u.map(str::to_string) }),
        event_id: None,
    }
}

#[test]
fn upload_body_holds_base64() {
    let body = upload_file_body_base64(b"hello");
    assert_eq!(body.file_type, 1);
    assert!(!body.srv_send_msg);
    assert_eq!(body.file_data, "aGVsbG8=");
    assert_eq!(upload_file_body("x".to_string()).file_data, "x");
    assert_eq!(upload_file_body_base64(b"").file_data, "");
    assert!(is_encodable(b"hello"));
}

#[test]
fn upload_paths() {
    assert_eq!(group_upload_path("G1"), "/v2/groups/G1/files");
    assert_eq!(c2c_upload_path("U1"), "/v2/users/U1/files");
}

#[test]
fn group_reply_refers_to_the_message() {
    let message = group_message(Some("m"), Some("g"));
    let reply = reply_group_with_png_bytes(&message, Some("hi"), b"\x89PNG").unwrap();
    assert_eq!(reply.openid, "g");
    assert_eq!(reply.upload_path, "/v2/groups/g/files");
    assert_eq!(reply.body.file_data, "iVBORw==");
    assert_eq!(reply.params.msg_type, 7);
    assert_eq!(reply.params.content.as_deref(), Some("hi"));
    assert_eq!(reply.params.msg_id.as_deref(), Some("m"));
    assert_eq!(reply.params.msg_seq, None);
    assert_eq!(reply.params.event_id.as_deref(), Some("event"));
}

#[test]
fn private_reply_refers_to_the_message() {
    let message = private_message(Some("m"), Some(Some("u")));
    let reply = reply_c2c_with_png_bytes(&message, None, b"\x89PNG").unwrap();
    assert_eq!(reply.openid, "u");
    assert_eq!(reply.upload_path, "/v2/users/u/files");
    assert_eq!(reply.params.msg_type, 7);
    assert_eq!(reply.params.content, None);
    assert_eq!(reply.params.msg_id.as_deref(), Some("m"));
    assert_eq!(reply.params.msg_seq, Some(1));
    assert_eq!(reply.params.event_id, None);
}

#[test]
fn replies_need_an_address() {
    let group = |id, group| reply_group_with_png_bytes(&group_message(id, group), None, b"");
    assert_eq!(group(None, None).unwrap_err(), MediaError::MissingGroupOpenid);
    assert_eq!(group(None, Some("g")).unwrap_err(), MediaError::MissingMessageId);
    let private = |id, user| reply_c2c_with_png_bytes(&private_message(id, user), None, b"");
    assert_eq!(private(None, None).unwrap_err(), MediaError::MissingUserOpenid);
    assert_eq!(private(Some("m"), Some(None)).unwrap_err(), MediaError::MissingUserOpenid);
    assert_eq!(private(None, Some(Some("u"))).unwrap_err(), MediaError::MissingMessageId);
    assert_eq!(MediaError::MissingGroupOpenid.message(), "Missing group_openid");
    assert_eq!(MediaError::MissingUserOpenid.message(), "Missing user_openid");
    assert_eq!(
        MediaError::MissingMessageId.message(),
        "Missing message id for passive reply"
    );
}

#[test]
fn uploaded_image_is_the_rendered_one() {
    for data in ["", "iVBORw0KGgo=", "AQID", "/+7/"] {
        let image = response_image(RenderResponse {
            id: None,
            ok: true,
            format: None,
            data: Some(data.to_string()),
            pages: None,
            errors: None,
            warnings: None,
        })
        .unwrap();
        assert_eq!(upload_file_body_base64(&image).file_data, data);
    }
}
