use thnr::address::{program_id, profile_address, post_address, vault_address, Address};
use thnr::handlers::{
    comment_post, delete_post, initialize_post, initialize_user, like_post, CommentPost,
    DeletePost, InitializePost, InitializeUser, LikePost,
};
use thnr::ledger::Ledger;
use thnr::records::Error;

fn alice() -> Address {
    Address::new([1u8; 32])
}

fn bob() -> Address {
    Address::new([2u8; 32])
}

#[test]
fn feed_scenario_end_to_end() {
    let program = program_id();
    let mut ledger = Ledger::new(program, 0);
    assert!(ledger.fund(&alice(), 5_000_000));
    assert!(ledger.fund(&bob(), 5_000_000));

    let profile = profile_address(&program, &alice()).unwrap();
    let vault_a = vault_address(&program, &alice()).unwrap();
    let vault_b = vault_address(&program, &bob()).unwrap();
    let post = post_address(&program, &alice(), 0).unwrap();

    let r = initialize_user(&mut ledger, &InitializeUser { user_profile: profile, user: alice() });
    assert_eq!(r, Ok(()));
    assert_eq!(ledger.profile(&profile).unwrap().post_count, 0);
    assert_eq!(ledger.profile(&profile).unwrap().user, alice());

    let r = initialize_post(
        &mut ledger,
        &InitializePost { user: alice(), user_profile: profile, vault_account: vault_a, post },
        String::from("Hi"),
        String::from("Hello"),
    );
    assert_eq!(r, Ok(()));
    assert_eq!(ledger.profile(&profile).unwrap().post_count, 1);
    assert_eq!(ledger.balance(&vault_a), 1_000_000);
    assert_eq!(ledger.balance(&alice()), 4_000_000);
    {
        let stored = ledger.post(&post).unwrap();
        assert_eq!(stored.author, alice());
        assert_eq!(stored.title, "Hi");
        assert_eq!(stored.content, "Hello");
        assert_eq!(stored.like_count, 0);
        assert!(stored.comments.is_empty());
    }

    let r = like_post(&mut ledger, &LikePost { user: bob(), author_account: alice(), post });
    assert_eq!(r, Ok(()));
    assert_eq!(ledger.post(&post).unwrap().like_count, 1);
    assert_eq!(ledger.balance(&alice()), 4_001_000);
    assert_eq!(ledger.balance(&bob()), 4_999_000);

    let r = comment_post(
        &mut ledger,
        &CommentPost { user: bob(), vault_account: vault_b, post },
        String::from("Nice!"),
        1_700_000_000,
    );
    assert_eq!(r, Ok(()));
    {
        let stored = ledger.post(&post).unwrap();
        assert_eq!(stored.comments.len(), 1);
        assert_eq!(stored.comments[0].author, bob());
        assert_eq!(stored.comments[0].content, "Nice!");
        assert_eq!(stored.comments[0].timestamp, 1_700_000_000);
    }
    assert_eq!(ledger.balance(&vault_b), 1_000_000);
    assert_eq!(ledger.balance(&bob()), 3_999_000);
    assert_eq!(ledger.balance(&vault_a), 1_000_000);

    let r = delete_post(&mut ledger, &DeletePost { user: alice(), vault_account: vault_a, post });
    assert_eq!(r, Ok(()));
    assert_eq!(ledger.balance(&alice()), 5_001_000);
    assert!(ledger.post(&post).is_none());
    assert!(!ledger.has_account(&post));
    assert!(!ledger.has_account(&vault_a));
    assert_eq!(ledger.balance(&vault_b), 1_000_000);
    assert_eq!(ledger.total_supply(), 10_000_000);

    let r = delete_post(&mut ledger, &DeletePost { user: alice(), vault_account: vault_a, post });
    assert_eq!(r, Err(Error::NotFound));
}
