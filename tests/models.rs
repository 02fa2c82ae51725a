use booru::errors::Error;
use booru::files::{check_filename, split_string, StoreError};
use booru::jwt::{Claims, Token};
use booru::models::image::{Image, Timestamp};
use booru::models::imageresponse::ImageResponse;
use booru::models::tag::Tag;
use booru::models::taggedimage::TaggedImage;
use booru::models::tagresponse::TagResponse;
use booru::models::user::{single_user, User};
use booru::requests::user::{check_credentials, upload_statement, user_query, Login, Signup};

#[test]
fn error_status_and_message() {
    assert_eq!(Error::TagNotFound.status(), 400);
    assert_eq!(Error::TagNotFound.message(), "Tag not found");
    assert_eq!(Error::WrongCredential.status(), 401);
    assert_eq!(Error::DatabaseError.status(), 500);
    assert_eq!(Error::DatabaseError.message(), "Database Error");
    assert_eq!(Error::InvalidPattern.status(), 400);
    assert_eq!(Error::ReconcileFailed.status(), 500);
    assert_eq!(Error::ReconcileFailed.message(), "Reconcile Failed");
    assert_eq!(StoreError::Write.status(), 500);
    assert_eq!(StoreError::Exists.message(), "File already exists");
    assert_eq!(StoreError::WrongMime.status(), 400);
}

#[test]
fn tag_new_and_responses() {
    let mut t = Tag::new("x".to_string(), "artist".to_string(), "desc".to_string());
    assert_eq!(t.id, None);
    assert_eq!(t.count, 0);
    assert_eq!(t.user, "");
    t.id = Some("tag:1".to_string());
    t.count = 4;
    assert_eq!(t.to_string(), "tag:1");
    assert_eq!(t.clone(), t);
    let r = TagResponse::new(t.clone());
    assert_eq!(r, TagResponse { name: "x".to_string(), category: "artist".to_string(), description: None, count: 4 });
    let r = TagResponse::with_description(t);
    assert_eq!(r.description, Some("desc".to_string()));
    assert_eq!(r.count, 4);
}

#[test]
fn image_hash_is_md5_hex() {
    let i = Image::new(b"hello", "image/png".to_string(), Timestamp { seconds: 7, nanos: 0 });
    assert_eq!(i.hash, "5d41402abc4b2a76b9719d911017c592");
    assert_eq!(i.id, None);
    assert!(i.tags.is_empty());
    assert_eq!(i.content_type, "image/png");
    assert_eq!(i.created_at, Timestamp { seconds: 7, nanos: 0 });
}

#[test]
fn image_response_and_tagged() {
    let mut tag = Tag::new("x".to_string(), "artist".to_string(), "d".to_string());
    tag.count = 2;
    let user = User { id: None, name: "ann".to_string(), salt: [0; 64], hash: [0; 64] };
    let at = Timestamp { seconds: 1_700_000_000, nanos: 5 };
    let image = Image::tagged(Image::uploaded("abc".to_string(), at, "image/jpeg".to_string()), vec![tag.clone()], user);
    assert_eq!(image.user, "ann");
    let tagged = TaggedImage::new(Image::uploaded("abc".to_string(), at, "image/jpeg".to_string()), vec![tag], "bob".to_string());
    assert_eq!(tagged.user, "bob");
    assert_eq!(tagged.created_at, at);
    let r = ImageResponse::new(image);
    assert_eq!(r.url, "http://localhost:4000/abc");
    assert_eq!(r.hash, "abc");
    assert_eq!(r.tags.len(), 1);
    assert_eq!(r.tags[0].name, "x");
    assert_eq!(r.tags[0].count, 2);
    assert_eq!(r.tags[0].description, None);
}

#[test]
fn password_round_trip() {
    let user = User::hash("ann".to_string(), "secret".to_string()).unwrap();
    assert_eq!(user.name, "ann");
    assert_ne!(user.hash, [0u8; 64]);
    assert_eq!(user.verify("secret".to_string()), Ok(()));
    assert_eq!(user.verify("Secret".to_string()), Err(Error::WrongCredential));
}

#[test]
fn single_user_cases() {
    let u = || User { id: None, name: "ann".to_string(), salt: [1; 64], hash: [2; 64] };
    assert_eq!(single_user(None), Err(Error::UserNotFound));
    assert_eq!(single_user(Some(vec![])), Err(Error::DatabaseError));
    assert_eq!(single_user(Some(vec![u(), u()])), Err(Error::DatabaseError));
    assert_eq!(single_user(Some(vec![u()])), Ok(u()));
}

#[test]
fn claims_and_token() {
    let c = Claims::new("ann".to_string(), 1_000);
    assert_eq!(c.exp, 87_400);
    let t = Token::bearer("abc".to_string(), &c);
    assert_eq!(t, Token { access_token: "abc".to_string(), token_type: "Bearer".to_string(), expire: 87_400 });
    let late = Claims::new("bob".to_string(), i64::MAX - 86_400);
    assert_eq!(late.sub, "bob");
    assert_eq!(late.exp, i64::MAX);
}

#[test]
fn credentials_must_be_given() {
    assert_eq!(check_credentials("ann", "pw"), Ok(()));
    assert_eq!(check_credentials("", "pw"), Err(Error::MissingCredential));
    assert_eq!(check_credentials("ann", ""), Err(Error::MissingCredential));
    assert_eq!(Login { name: "a".to_string(), password: "b".to_string() }.check(), Ok(()));
    assert_eq!(Signup { name: String::new(), password: "b".to_string() }.check(), Err(Error::MissingCredential));
}

#[test]
fn user_statements() {
    assert_eq!(user_query("ann"), "select * from user where name = 'ann'");
    assert_eq!(upload_statement("user:1", "image:2"), "relate user:1->upload->image:2;");
}

#[test]
fn file_names() {
    let name = "5d41402abc4b2a76b9719d911017c592".to_string();
    assert_eq!(check_filename(&name), Ok(()));
    assert_eq!(check_filename("short"), Err(StoreError::WrongFilename));
    assert_eq!(
        split_string(name),
        ("5d".to_string(), "41".to_string(), "40".to_string(), "2abc4b2a76b9719d911017c592".to_string())
    );
    assert_eq!(split_string("abcdef".to_string()).3, "");
    assert_eq!(
        split_string("\u{e9}cdefg\u{e9}".to_string()),
        ("\u{e9}".to_string(), "cd".to_string(), "ef".to_string(), "g\u{e9}".to_string())
    );
}

#[test]
fn every_error_has_status_and_message() {
    let table = [
        (Error::ServerCreate, 500, "Server Creation"),
        (Error::DatabaseConnection, 500, "Database Connection"),
        (Error::DatabaseError, 500, "Database Error"),
        (Error::MissingCredential, 400, "Missing Credential"),
        (Error::WrongCredential, 401, "Wrong Credential"),
        (Error::InvalidToken, 400, "Invalid Token"),
        (Error::MissingField, 400, "Missing Field"),
        (Error::ImageExists, 400, "Image already exists"),
        (Error::ImageNotFound, 400, "Image not found"),
        (Error::TagExists, 400, "Tag already exists"),
        (Error::TagNotFound, 400, "Tag not found"),
        (Error::UserExists, 400, "User already exists"),
        (Error::UserNotFound, 400, "User not found"),
        (Error::Hashing, 500, "Hashing password"),
        (Error::Upload, 400, "Upload Error"),
        (Error::Serialize, 500, "Serialize"),
        (Error::InvalidId, 400, "Invalid Id"),
        (Error::NotImplemented, 500, "Not Implemented"),
        (Error::WrongType, 400, "Wrong Type"),
        (Error::InvalidPattern, 400, "Invalid Pattern"),
        (Error::ResolutionFailed, 500, "Resolution Failed"),
        (Error::ReconcileFailed, 500, "Reconcile Failed"),
        (Error::DatabaseInconsistent, 500, "Database Inconsistent"),
    ];
    for (e, status, message) in table {
        assert_eq!(e.status(), status);
        assert_eq!(e.message(), message);
    }
    let store = [
        (StoreError::Server, 500, "Server Start"),
        (StoreError::WrongFilename, 400, "Wrong Filename"),
        (StoreError::WrongField, 400, "Wrong Field"),
        (StoreError::WrongMime, 400, "Wrong Mime"),
        (StoreError::Write, 500, "Write File"),
        (StoreError::Read, 400, "Read File"),
        (StoreError::Exists, 400, "File already exists"),
        (StoreError::NotFound, 400, "File not found"),
    ];
    for (e, status, message) in store {
        assert_eq!(e.status(), status);
        assert_eq!(e.message(), message);
    }
}
